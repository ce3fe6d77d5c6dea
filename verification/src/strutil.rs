//! Verified string helpers: decimal rendering of ports, joining token lists,
//! and splitting text on a delimiter character.

use vstd::prelude::*;

verus! {

/// The character of one decimal digit.
pub open spec fn digit_char(d: int) -> char {
    if d == 0 {
        '0'
    } else if d == 1 {
        '1'
    } else if d == 2 {
        '2'
    } else if d == 3 {
        '3'
    } else if d == 4 {
        '4'
    } else if d == 5 {
        '5'
    } else if d == 6 {
        '6'
    } else if d == 7 {
        '7'
    } else if d == 8 {
        '8'
    } else {
        '9'
    }
}

/// The decimal rendering of a number, most significant digit first,
/// without leading zeroes (a single zero for zero itself).
pub open spec fn dec_rep(n: int) -> Seq<char>
    decreases n,
{
    if n < 10 {
        seq![digit_char(n)]
    } else {
        dec_rep(n / 10).push(digit_char(n % 10))
    }
}

fn digit_str(d: u16) -> (r: &'static str)
    requires
        d < 10,
    ensures
        r@ == seq![digit_char(d as int)],
{
    if d == 0 {
        proof {
            reveal_strlit("0");
        }
        let r = "0";
        proof {
            assert(r@ =~= seq![digit_char(d as int)]);
        }
        r
    } else if d == 1 {
        proof {
            reveal_strlit("1");
        }
        let r = "1";
        proof {
            assert(r@ =~= seq![digit_char(d as int)]);
        }
        r
    } else if d == 2 {
        proof {
            reveal_strlit("2");
        }
        let r = "2";
        proof {
            assert(r@ =~= seq![digit_char(d as int)]);
        }
        r
    } else if d == 3 {
        proof {
            reveal_strlit("3");
        }
        let r = "3";
        proof {
            assert(r@ =~= seq![digit_char(d as int)]);
        }
        r
    } else if d == 4 {
        proof {
            reveal_strlit("4");
        }
        let r = "4";
        proof {
            assert(r@ =~= seq![digit_char(d as int)]);
        }
        r
    } else if d == 5 {
        proof {
            reveal_strlit("5");
        }
        let r = "5";
        proof {
            assert(r@ =~= seq![digit_char(d as int)]);
        }
        r
    } else if d == 6 {
        proof {
            reveal_strlit("6");
        }
        let r = "6";
        proof {
            assert(r@ =~= seq![digit_char(d as int)]);
        }
        r
    } else if d == 7 {
        proof {
            reveal_strlit("7");
        }
        let r = "7";
        proof {
            assert(r@ =~= seq![digit_char(d as int)]);
        }
        r
    } else if d == 8 {
        proof {
            reveal_strlit("8");
        }
        let r = "8";
        proof {
            assert(r@ =~= seq![digit_char(d as int)]);
        }
        r
    } else {
        proof {
            reveal_strlit("9");
        }
        let r = "9";
        proof {
            assert(r@ =~= seq![digit_char(d as int)]);
        }
        r
    }
}

/// Renders a port number in decimal.
pub fn u16_to_dec(n: u16) -> (r: String)
    ensures
        r@ == dec_rep(n as int),
    decreases n,
{
    if n < 10 {
        String::from_str(digit_str(n))
    } else {
        let mut s = u16_to_dec(n / 10);
        s.append(digit_str(n % 10));
        proof {
            assert(s@ =~= dec_rep(n as int));
        }
        s
    }
}

/// The concatenation of parts with a separator between neighbours.
pub open spec fn spec_join(parts: Seq<Seq<char>>, sep: Seq<char>) -> Seq<char>
    decreases parts.len(),
{
    if parts.len() == 0 {
        Seq::empty()
    } else if parts.len() == 1 {
        parts[0]
    } else {
        spec_join(parts.drop_last(), sep) + sep + parts.last()
    }
}

/// Joins the parts with the separator between neighbours.
pub fn join_with(parts: &Vec<String>, sep: &str) -> (r: String)
    ensures
        r@ == spec_join(parts.deep_view(), sep@),
{
    let mut acc = String::new();
    let mut i: usize = 0;
    while i < parts.len()
        invariant
            i <= parts@.len(),
            acc@ == spec_join(parts.deep_view().take(i as int), sep@),
        decreases parts@.len() - i,
    {
        if i > 0 {
            acc.append(sep);
        }
        acc.append(parts[i].as_str());
        proof {
            let pv = parts.deep_view();
            assert(pv.take(i + 1).drop_last() =~= pv.take(i as int));
            assert(pv.take(i + 1).last() == pv[i as int]);
            if i == 0 {
                assert(acc@ =~= spec_join(pv.take(i + 1), sep@));
            } else {
                assert(acc@ =~= spec_join(pv.take(i + 1), sep@));
            }
        }
        i = i + 1;
    }
    proof {
        assert(parts.deep_view().take(parts@.len() as int) =~= parts.deep_view());
    }
    acc
}

/// The position of the first occurrence of a character, if any.
pub open spec fn find_char(s: Seq<char>, c: char) -> Option<int>
    decreases s.len(),
{
    if s.len() == 0 {
        None
    } else if s[0] == c {
        Some(0)
    } else {
        match find_char(s.subrange(1, s.len() as int), c) {
            None => None,
            Some(i) => Some(i + 1),
        }
    }
}

/// `find_char` returns None exactly when the character never occurs.
pub proof fn lemma_find_char_none(s: Seq<char>, c: char)
    ensures
        (find_char(s, c) is None) <==> (forall|j: int| 0 <= j < s.len() ==> s[j] != c),
    decreases s.len(),
{
    if s.len() > 0 {
        let rest = s.subrange(1, s.len() as int);
        lemma_find_char_none(rest, c);
        if s[0] != c {
            assert(forall|j: int| 0 <= j < rest.len() ==> rest[j] == s[j + 1]);
            if forall|j: int| 0 <= j < rest.len() ==> rest[j] != c {
                assert forall|j: int| 0 <= j < s.len() implies s[j] != c by {
                    if j > 0 {
                        assert(rest[j - 1] == s[j]);
                    }
                }
            } else {
                let j = choose|j: int| 0 <= j < rest.len() && rest[j] == c;
                assert(s[j + 1] == c);
            }
        }
    }
}

/// `find_char` returns the first position holding the character.
pub proof fn lemma_find_char_some(s: Seq<char>, c: char, i: int)
    requires
        0 <= i < s.len(),
        s[i] == c,
        forall|j: int| 0 <= j < i ==> s[j] != c,
    ensures
        find_char(s, c) == Some(i),
    decreases s.len(),
{
    if s[0] == c {
        assert(i == 0);
    } else {
        let rest = s.subrange(1, s.len() as int);
        assert(rest[i - 1] == c);
        assert forall|j: int| 0 <= j < i - 1 implies rest[j] != c by {
            assert(rest[j] == s[j + 1]);
        }
        lemma_find_char_some(rest, c, i - 1);
    }
}

/// `find_char` points at an occurrence and nothing earlier matches.
pub proof fn lemma_find_char_found(s: Seq<char>, c: char, i: int)
    requires
        find_char(s, c) == Some(i),
    ensures
        0 <= i < s.len(),
        s[i] == c,
        forall|j: int| 0 <= j < i ==> s[j] != c,
    decreases s.len(),
{
    if s.len() > 0 && s[0] != c {
        let rest = s.subrange(1, s.len() as int);
        lemma_find_char_found(rest, c, i - 1);
        assert forall|j: int| 0 <= j < i implies s[j] != c by {
            if j > 0 {
                assert(rest[j - 1] == s[j]);
            }
        }
    }
}

/// Finds the first occurrence of a character in a string slice.
pub fn find_char_in(s: &str, c: char) -> (r: Option<usize>)
    ensures
        match r {
            Some(i) => find_char(s@, c) == Some(i as int),
            None => find_char(s@, c) is None,
        },
{
    let len = s.unicode_len();
    let mut i: usize = 0;
    while i < len
        invariant
            i <= len,
            len == s@.len(),
            forall|j: int| 0 <= j < i ==> s@[j] != c,
        decreases len - i,
    {
        if s.get_char(i) == c {
            proof {
                lemma_find_char_some(s@, c, i as int);
            }
            return Some(i);
        }
        i = i + 1;
    }
    proof {
        lemma_find_char_none(s@, c);
    }
    None
}

/// The pieces of a text between occurrences of a delimiter; one more piece
/// than there are delimiters, in order, the delimiter itself dropped.
pub open spec fn spec_split(s: Seq<char>, c: char) -> Seq<Seq<char>>
    decreases s.len(),
{
    if s.len() == 0 {
        seq![s]
    } else {
        let prev = spec_split(s.drop_last(), c);
        if s.last() == c {
            prev.push(Seq::empty())
        } else {
            prev.update(prev.len() - 1, prev.last().push(s.last()))
        }
    }
}

/// A split has one more piece than the text has delimiters, so at least one.
pub proof fn lemma_split_len(s: Seq<char>, c: char)
    ensures
        spec_split(s, c).len() >= 1,
    decreases s.len(),
{
    if s.len() > 0 {
        lemma_split_len(s.drop_last(), c);
    }
}

/// Splits a text on a delimiter character.
pub fn split_on(s: &str, c: char) -> (r: Vec<String>)
    ensures
        r.deep_view() == spec_split(s@, c),
{
    let len = s.unicode_len();
    let mut r: Vec<String> = Vec::new();
    let mut start: usize = 0;
    let mut i: usize = 0;
    proof {
        assert(s@.take(0).len() == 0);
        assert(spec_split(s@.take(0), c) =~= seq![s@.take(0)]);
        assert(s@.take(0) =~= s@.subrange(0, 0));
        assert(r.deep_view().push(s@.subrange(0, 0)) =~= seq![s@.subrange(0, 0)]);
    }
    while i < len
        invariant
            start <= i <= len,
            len == s@.len(),
            spec_split(s@.take(i as int), c) == r.deep_view().push(
                s@.subrange(start as int, i as int),
            ),
        decreases len - i,
    {
        let ghost prefix = s@.take(i as int);
        let ghost prev = spec_split(prefix, c);
        let ghost piece_v = s@.subrange(start as int, i as int);
        proof {
            assert(s@.take(i + 1).drop_last() =~= prefix);
            assert(s@.take(i + 1).last() == s@[i as int]);
            lemma_split_len(prefix, c);
        }
        if s.get_char(i) == c {
            let piece = s.substring_char(start, i).to_owned();
            let ghost old_r = r.deep_view();
            r.push(piece);
            proof {
                assert(r.deep_view() =~= old_r.push(piece_v));
                assert(spec_split(s@.take(i + 1), c) == prev.push(Seq::empty()));
                assert(s@.subrange(i + 1, i + 1) =~= Seq::<char>::empty());
                assert(prev.push(Seq::<char>::empty()) =~= r.deep_view().push(
                    s@.subrange(i + 1, i + 1),
                ));
            }
            start = i + 1;
        } else {
            proof {
                let grown = prev.update(prev.len() - 1, prev.last().push(s@[i as int]));
                assert(spec_split(s@.take(i + 1), c) == grown);
                assert(prev.last() == piece_v);
                assert(piece_v.push(s@[i as int]) =~= s@.subrange(start as int, i + 1));
                assert(grown =~= r.deep_view().push(s@.subrange(start as int, i + 1)));
            }
        }
        i = i + 1;
    }
    let piece = s.substring_char(start, len).to_owned();
    let ghost old_r = r.deep_view();
    r.push(piece);
    proof {
        assert(s@.take(len as int) =~= s@);
        assert(r.deep_view() =~= old_r.push(piece@));
    }
    r
}

/// Splitting a text free of the delimiter yields the text as its one piece.
pub proof fn lemma_split_no_delim(s: Seq<char>, c: char)
    requires
        forall|j: int| 0 <= j < s.len() ==> s[j] != c,
    ensures
        spec_split(s, c) == seq![s],
    decreases s.len(),
{
    if s.len() > 0 {
        lemma_split_no_delim(s.drop_last(), c);
        let prev = spec_split(s.drop_last(), c);
        assert(prev == seq![s.drop_last()]);
        assert(prev.update(0, s.drop_last().push(s.last())) =~= seq![s.drop_last().push(s.last())]);
        assert(s.drop_last().push(s.last()) =~= s);
    }
}

/// Extending a text by delimiter-free characters extends its last piece.
pub proof fn lemma_split_append_no_delim(x: Seq<char>, y: Seq<char>, c: char)
    requires
        forall|j: int| 0 <= j < y.len() ==> y[j] != c,
    ensures
        spec_split(x + y, c) == spec_split(x, c).update(
            spec_split(x, c).len() - 1,
            spec_split(x, c).last() + y,
        ),
    decreases y.len(),
{
    lemma_split_len(x, c);
    let sx = spec_split(x, c);
    if y.len() == 0 {
        assert(x + y =~= x);
        assert(sx.last() + y =~= sx.last());
        assert(sx.update(sx.len() - 1, sx.last()) =~= sx);
    } else {
        lemma_split_append_no_delim(x, y.drop_last(), c);
        let mid = sx.update(sx.len() - 1, sx.last() + y.drop_last());
        assert((x + y).drop_last() =~= x + y.drop_last());
        assert((x + y).last() == y.last());
        assert(spec_split(x + y.drop_last(), c) == mid);
        assert(spec_split(x + y, c) == mid.update(mid.len() - 1, mid.last().push(y.last())));
        assert(mid.last() == sx.last() + y.drop_last());
        assert((sx.last() + y.drop_last()).push(y.last()) =~= sx.last() + y);
        assert(mid.update(mid.len() - 1, sx.last() + y) =~= sx.update(sx.len() - 1, sx.last() + y));
    }
}

/// Law: splitting a separator-joined list recovers the list, provided no
/// part contains the separator.
pub proof fn lemma_split_join(parts: Seq<Seq<char>>, c: char)
    requires
        parts.len() >= 1,
        forall|i: int, j: int|
            0 <= i < parts.len() && 0 <= j < parts[i].len() ==> #[trigger] parts[i][j] != c,
    ensures
        spec_split(spec_join(parts, seq![c]), c) == parts,
    decreases parts.len(),
{
    if parts.len() == 1 {
        assert(spec_join(parts, seq![c]) == parts[0]);
        lemma_split_no_delim(parts[0], c);
        assert(seq![parts[0]] =~= parts);
    } else {
        let front = parts.drop_last();
        assert(forall|i: int, j: int|
            0 <= i < front.len() && 0 <= j < front[i].len() ==> #[trigger] front[i][j] != c);
        lemma_split_join(front, c);
        let jf = spec_join(front, seq![c]);
        assert(spec_join(parts, seq![c]) == jf + seq![c] + parts.last());
        assert((jf + seq![c]).drop_last() =~= jf);
        assert((jf + seq![c]).last() == c);
        assert(spec_split(jf + seq![c], c) == spec_split(jf, c).push(Seq::empty()));
        let mid = front.push(Seq::<char>::empty());
        assert(spec_split(jf + seq![c], c) == mid);
        assert(parts.last() == parts[parts.len() - 1]);
        lemma_split_append_no_delim(jf + seq![c], parts.last(), c);
        assert(jf + seq![c] + parts.last() =~= (jf + seq![c]) + parts.last());
        assert(mid.last() == Seq::<char>::empty());
        assert(mid.last() + parts.last() =~= parts.last());
        assert(mid.update(mid.len() - 1, parts.last()) =~= parts);
    }
}

} // verus!
