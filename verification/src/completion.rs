//! The pure decisions behind shell completion: which profile names and
//! which flags to offer, and how a partially quoted command line is
//! balanced and split into words.

use vstd::prelude::*;

use std::collections::VecDeque;

use crate::select::str_eq;

verus! {

/// One flag of a subcommand, under its short and long spellings.
#[derive(Clone, Copy)]
pub struct CliOption {
    pub short: Option<&'static str>,
    pub long: Option<&'static str>,
}

impl CliOption {
    pub fn new(short: Option<&'static str>, long: Option<&'static str>) -> (r: Self)
        ensures
            r.short == short,
            r.long == long,
    {
        CliOption { short, long }
    }

    /// The spellings under which the flag can already stand on the line,
    /// long form first.
    pub open spec fn spec_strings(self) -> Seq<Seq<char>> {
        (match self.long {
            Some(l) => seq![l@],
            None => Seq::empty(),
        }) + (match self.short {
            Some(s) => seq![s@],
            None => Seq::empty(),
        })
    }

    pub fn strings(&self) -> (r: Vec<&'static str>)
        ensures
            r.deep_view() == self.spec_strings(),
    {
        let mut r: Vec<&'static str> = Vec::new();
        if let Some(l) = self.long {
            r.push(l);
        }
        if let Some(s) = self.short {
            r.push(s);
        }
        proof {
            assert(r.deep_view() =~= self.spec_strings());
        }
        r
    }

    /// Both spellings of the flag, as sequences of characters.
    pub open spec fn view_pair(self) -> (Option<Seq<char>>, Option<Seq<char>>) {
        (
            match self.short {
                Some(s) => Some(s@),
                None => None,
            },
            match self.long {
                Some(l) => Some(l@),
                None => None,
            },
        )
    }

    /// The spelling offered as a suggestion: the long form when there is
    /// one, else the short form.
    pub open spec fn spec_suggestion(self) -> Option<Seq<char>> {
        match self.long {
            Some(l) => Some(l@),
            None => match self.short {
                Some(s) => Some(s@),
                None => None,
            },
        }
    }

    pub fn suggestion(&self) -> (r: Option<&'static str>)
        ensures
            match r {
                Some(s) => self.spec_suggestion() == Some(s@),
                None => self.spec_suggestion() is None,
            },
    {
        match self.long {
            Some(l) => Some(l),
            None => match self.short {
                Some(s) => Some(s),
                None => None,
            },
        }
    }
}

/// A flag's spellings are exactly its long and short forms.
pub proof fn lemma_strings_elems(o: CliOption)
    ensures
        forall|x: Seq<char>|
            #[trigger] o.spec_strings().contains(x) <==> ((o.long is Some && x == o.long->0@) || (
            o.short is Some && x == o.short->0@)),
{
    assert forall|x: Seq<char>| #[trigger]
        o.spec_strings().contains(x) implies ((o.long is Some && x == o.long->0@) || (
    o.short is Some && x == o.short->0@)) by {
        let i = choose|i: int| 0 <= i < o.spec_strings().len() && o.spec_strings()[i] == x;
    }
    assert forall|x: Seq<char>|
        ((o.long is Some && x == o.long->0@) || (o.short is Some && x
        == o.short->0@)) implies #[trigger] o.spec_strings().contains(x) by {
        if o.long is Some && x == o.long->0@ {
            assert(o.spec_strings()[0] == x);
        } else {
            let i = o.spec_strings().len() - 1;
            assert(o.spec_strings()[i] == x);
        }
    }
}

/// The flag already stands, under either spelling, among the arguments
/// from the given position on.
pub open spec fn spec_mentioned(args: Seq<Seq<char>>, from: int, o: CliOption) -> bool {
    exists|k: int| from <= k < args.len() && #[trigger] o.spec_strings().contains(args[k])
}

/// Whether the flag already stands among the arguments from the given
/// position on.
pub fn option_mentioned(all_args: &Vec<String>, from: usize, o: &CliOption) -> (r: bool)
    ensures
        r == spec_mentioned(all_args.deep_view(), from as int, *o),
{
    proof {
        lemma_strings_elems(*o);
    }
    let mut k: usize = from;
    while k < all_args.len()
        invariant
            from <= k,
            forall|t: int|
                from <= t < k ==> !(#[trigger] o.spec_strings().contains(
                    all_args.deep_view()[t],
                )),
            forall|x: Seq<char>|
                #[trigger] o.spec_strings().contains(x) <==> ((o.long is Some && x == o.long->0@)
                    || (o.short is Some && x == o.short->0@)),
        decreases all_args@.len() - k,
    {
        let a = all_args[k].as_str();
        if let Some(l) = o.long {
            if str_eq(a, l) {
                proof {
                    assert(o.spec_strings().contains(all_args.deep_view()[k as int]));
                }
                return true;
            }
        }
        if let Some(s) = o.short {
            if str_eq(a, s) {
                proof {
                    assert(o.spec_strings().contains(all_args.deep_view()[k as int]));
                }
                return true;
            }
        }
        k = k + 1;
    }
    false
}

/// Keeps the flags that do not already stand among the arguments from the
/// given position on.
pub fn filter_existing_options(
    all_args: &Vec<String>,
    current_idx: usize,
    options: &Vec<CliOption>,
) -> (r: Vec<CliOption>)
    ensures
        r@ == options@.filter(
            |o: CliOption| !spec_mentioned(all_args.deep_view(), current_idx as int, o),
        ),
{
    let ghost pred = |o: CliOption| !spec_mentioned(all_args.deep_view(), current_idx as int, o);
    let mut r: Vec<CliOption> = Vec::new();
    let mut i: usize = 0;
    proof {
        reveal(Seq::filter);
        assert(options@.take(0).filter(pred) =~= Seq::<CliOption>::empty());
    }
    while i < options.len()
        invariant
            i <= options@.len(),
            pred == (|o: CliOption| !spec_mentioned(
                all_args.deep_view(),
                current_idx as int,
                o,
            )),
            r@ == options@.take(i as int).filter(pred),
        decreases options@.len() - i,
    {
        let mentioned = option_mentioned(all_args, current_idx, &options[i]);
        if !mentioned {
            r.push(options[i]);
        }
        proof {
            reveal(Seq::filter);
            assert(options@.take(i + 1).drop_last() =~= options@.take(i as int));
            assert(options@.take(i + 1).last() == options@[i as int]);
        }
        i = i + 1;
    }
    proof {
        assert(options@.take(options@.len() as int) =~= options@);
    }
    r
}

/// The suggestions of a flag list, in order, flags without a spelling
/// skipped.
pub open spec fn spec_suggestions(options: Seq<CliOption>) -> Seq<Seq<char>>
    decreases options.len(),
{
    if options.len() == 0 {
        Seq::empty()
    } else {
        spec_suggestions(options.drop_last()) + match options.last().spec_suggestion() {
            Some(s) => seq![s],
            None => Seq::empty(),
        }
    }
}

/// Collects one suggestion per flag that has one.
pub fn option_suggestions(options: &Vec<CliOption>) -> (r: Vec<&'static str>)
    ensures
        r.deep_view() == spec_suggestions(options@),
{
    let mut r: Vec<&'static str> = Vec::new();
    let mut i: usize = 0;
    while i < options.len()
        invariant
            i <= options@.len(),
            r.deep_view() =~= spec_suggestions(options@.take(i as int)),
        decreases options@.len() - i,
    {
        let ghost before = r.deep_view();
        if let Some(s) = options[i].suggestion() {
            r.push(s);
        }
        proof {
            assert(options@.take(i + 1).drop_last() =~= options@.take(i as int));
            assert(options@.take(i + 1).last() == options@[i as int]);
            assert(r.deep_view() =~= spec_suggestions(options@.take(i + 1)));
        }
        i = i + 1;
    }
    proof {
        assert(options@.take(options@.len() as int) =~= options@);
    }
    r
}

/// The flags of the remote-desktop subcommand, as completion offers them.
pub fn rdp_options() -> (r: Vec<CliOption>)
    ensures
        Seq::new(r@.len(), |i: int| r@[i].view_pair()) =~= seq![
            (Some("-d"@), Some("--disable-gateway"@)),
            (None::<Seq<char>>, Some("edit"@)),
            (Some("-g"@), Some("--enable-gateway"@)),
            (None::<Seq<char>>, Some("--help"@)),
            (None::<Seq<char>>, Some("--ipv4"@)),
            (None::<Seq<char>>, Some("--ipv6"@)),
            (None::<Seq<char>>, Some("--stdout"@)),
        ],
{
    let mut r: Vec<CliOption> = Vec::new();
    r.push(CliOption::new(Some("-d"), Some("--disable-gateway")));
    r.push(CliOption::new(None, Some("edit")));
    r.push(CliOption::new(Some("-g"), Some("--enable-gateway")));
    r.push(CliOption::new(None, Some("--help")));
    r.push(CliOption::new(None, Some("--ipv4")));
    r.push(CliOption::new(None, Some("--ipv6")));
    r.push(CliOption::new(None, Some("--stdout")));
    r
}

/// The flags of the ssh-flavoured subcommands, as completion offers them.
pub fn ssh_options() -> (r: Vec<CliOption>)
    ensures
        Seq::new(r@.len(), |i: int| r@[i].view_pair()) =~= seq![
            (Some("-d"@), Some("--disable-jumphosts"@)),
            (None::<Seq<char>>, Some("--help"@)),
            (None::<Seq<char>>, Some("--ipv4"@)),
            (None::<Seq<char>>, Some("--ipv6"@)),
            (Some("-j"@), Some("--use-jump-hosts"@)),
            (None::<Seq<char>>, Some("--stdout"@)),
        ],
{
    let mut r: Vec<CliOption> = Vec::new();
    r.push(CliOption::new(Some("-d"), Some("--disable-jumphosts")));
    r.push(CliOption::new(None, Some("--help")));
    r.push(CliOption::new(None, Some("--ipv4")));
    r.push(CliOption::new(None, Some("--ipv6")));
    r.push(CliOption::new(Some("-j"), Some("--use-jump-hosts")));
    r.push(CliOption::new(None, Some("--stdout")));
    r
}

/// The state of one completion request: the line up to the cursor, the
/// words of it still unread, all words of the whole line, and how many
/// words have been read.
pub struct Context {
    pub up_to_cursor_str: String,
    pub pending_args_up_to_cursor: VecDeque<String>,
    pub all_args: Vec<String>,
    pub current_idx: usize,
}

impl Context {
    /// The cursor stands at the start of a new argument: the text before
    /// it ends in a space, or words before it are still unread.
    pub open spec fn spec_new_arg(self) -> bool {
        (self.up_to_cursor_str@.len() > 0 && self.up_to_cursor_str@.last() == ' ')
            || self.pending_args_up_to_cursor@.len() > 0
    }

    pub fn new_arg(&self) -> (r: bool)
        ensures
            r == self.spec_new_arg(),
    {
        let len = self.up_to_cursor_str.as_str().unicode_len();
        let ends_space = if len > 0 {
            self.up_to_cursor_str.as_str().get_char(len - 1) == ' '
        } else {
            false
        };
        ends_space || self.pending_args_up_to_cursor.len() > 0
    }

    /// Reads the next unread word, counting it as read.
    pub fn next_arg(&mut self) -> (r: Option<String>)
        requires
            old(self).current_idx < usize::MAX,
        ensures
            match r {
                Some(a) => {
                    &&& old(self).pending_args_up_to_cursor@.len() > 0
                    &&& a == old(self).pending_args_up_to_cursor@[0]
                    &&& final(self).pending_args_up_to_cursor@ == old(
                        self,
                    ).pending_args_up_to_cursor@.drop_first()
                    &&& final(self).current_idx == old(self).current_idx + 1
                },
                None => {
                    &&& old(self).pending_args_up_to_cursor@.len() == 0
                    &&& final(self).pending_args_up_to_cursor@ == old(
                        self,
                    ).pending_args_up_to_cursor@
                    &&& final(self).current_idx == old(self).current_idx
                },
            },
            final(self).up_to_cursor_str == old(self).up_to_cursor_str,
            final(self).all_args == old(self).all_args,
    {
        let arg = self.pending_args_up_to_cursor.pop_front();
        if arg.is_some() {
            self.current_idx = self.current_idx + 1;
        }
        arg
    }
}


/// What shell_words::split returns for a line: its POSIX-shell word split,
/// a function of the text alone; a line with an unmatched quote has none.
pub uninterp spec fn words_of(s: Seq<char>) -> Option<Seq<Seq<char>>>;

/// Relies on shell_words::split: the POSIX-shell word split of the line,
/// which depends on the characters alone; an unmatched quote fails.
#[verifier::external_body]
fn split_words(s: &str) -> (r: Option<Vec<String>>)
    ensures
        match r {
            Some(v) => words_of(s@) == Some(v.deep_view()),
            None => words_of(s@) == None::<Seq<Seq<char>>>,
        },
{
    match shell_words::split(s) {
        Ok(v) => Some(v),
        Err(_) => None,
    }
}

/// How many times a character occurs in a text.
pub open spec fn spec_count_char(s: Seq<char>, c: char) -> nat
    decreases s.len(),
{
    if s.len() == 0 {
        0
    } else {
        spec_count_char(s.drop_last(), c) + if s.last() == c {
            1nat
        } else {
            0nat
        }
    }
}

/// Counts the occurrences of a character.
pub fn count_char_in(s: &str, c: char) -> (r: usize)
    ensures
        r == spec_count_char(s@, c),
{
    let len = s.unicode_len();
    let mut i: usize = 0;
    let mut n: usize = 0;
    proof {
        assert(s@.take(0).len() == 0);
    }
    while i < len
        invariant
            i <= len,
            len == s@.len(),
            n <= i,
            n == spec_count_char(s@.take(i as int), c),
        decreases len - i,
    {
        proof {
            assert(s@.take(i + 1).drop_last() =~= s@.take(i as int));
            assert(s@.take(i + 1).last() == s@[i as int]);
        }
        if s.get_char(i) == c {
            n = n + 1;
        }
        i = i + 1;
    }
    proof {
        assert(s@.take(len as int) =~= s@);
    }
    n
}

/// The line with an unmatched single quote closed, then an unmatched
/// double quote closed: a user part way through a quote means one word.
pub open spec fn spec_balanced(s: Seq<char>) -> Seq<char> {
    let s1 = if spec_count_char(s, '\'') % 2 == 1 {
        s.push('\'')
    } else {
        s
    };
    if spec_count_char(s1, '"') % 2 == 1 {
        s1.push('"')
    } else {
        s1
    }
}

/// Splits a partially typed command line into words, first closing any
/// quote the user is still inside of.
pub fn balance_and_split(s: &str) -> (r: Option<Vec<String>>)
    ensures
        match r {
            Some(v) => words_of(spec_balanced(s@)) == Some(v.deep_view()),
            None => words_of(spec_balanced(s@)) is None,
        },
{
    let mut t = s.to_owned();
    let singles = count_char_in(s, '\'');
    if singles % 2 == 1 {
        t.append("'");
        proof {
            reveal_strlit("'");
            assert(t@ =~= s@.push('\''));
        }
    }
    let ghost s1 = t@;
    let doubles = count_char_in(t.as_str(), '"');
    if doubles % 2 == 1 {
        t.append("\"");
        proof {
            reveal_strlit("\"");
            assert(t@ =~= s1.push('"'));
        }
    }
    proof {
        assert(t@ == spec_balanced(s@));
    }
    split_words(t.as_str())
}

} // verus!

