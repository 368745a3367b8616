//! The options of a search and the result that a search hands back. The
//! library only reads a result: it never runs a search itself.

use crate::text::{decimal, decimal_width, push_decimal};
use vstd::prelude::*;
use vstd::string::StringExecFns;

verus! {

/// The mathematical value of [`GrepOptions`].
pub ghost struct GrepOptionsView {
    pub pattern: Seq<char>,
    pub ignore_case: bool,
    pub before_context: usize,
    pub after_context: usize,
}

/// What to search for, and how.
#[derive(Debug)]
pub struct GrepOptions {
    pub pattern: String,
    pub ignore_case: bool,
    /// The number of lines shown before each matching line.
    pub before_context: usize,
    /// The number of lines shown after each matching line.
    pub after_context: usize,
}

impl View for GrepOptions {
    type V = GrepOptionsView;

    open spec fn view(&self) -> GrepOptionsView {
        GrepOptionsView {
            pattern: self.pattern@,
            ignore_case: self.ignore_case,
            before_context: self.before_context,
            after_context: self.after_context,
        }
    }
}

impl GrepOptionsView {
    /// The options a run starts with: an empty pattern, case-sensitive, no
    /// context lines.
    pub open spec fn initial() -> GrepOptionsView {
        GrepOptionsView {
            pattern: Seq::empty(),
            ignore_case: false,
            before_context: 0,
            after_context: 0,
        }
    }
}

impl Default for GrepOptions {
    fn default() -> (options: GrepOptions)
        ensures
            options@ == GrepOptionsView::initial(),
    {
        GrepOptions {
            pattern: String::new(),
            ignore_case: false,
            before_context: 0,
            after_context: 0,
        }
    }
}

/// `text` as one word of a shell command line: between single quotes, with
/// each single quote of the text written as `'\''`.
pub open spec fn shell_quoted(text: Seq<char>) -> Seq<char> {
    seq!['\''] + quoted_body(text, text.len() as int) + seq!['\'']
}

/// The first `upto` characters of `text` as they stand between the quotes.
pub open spec fn quoted_body(text: Seq<char>, upto: int) -> Seq<char>
    decreases upto,
{
    if upto <= 0 {
        Seq::empty()
    } else if text[upto - 1] == '\'' {
        quoted_body(text, upto - 1) + seq!['\'', '\\', '\'', '\'']
    } else {
        quoted_body(text, upto - 1).push(text[upto - 1])
    }
}

/// The command line that stands for a search with the given options:
/// `git grep -n`, then ` -i` where case is ignored, ` -B` and the number of
/// lines where lines before a match are shown, ` -A` and the number of lines
/// where lines after a match are shown, then ` -e` and the quoted pattern.
pub open spec fn command_line(options: GrepOptionsView) -> Seq<char> {
    "git grep -n"@ + (if options.ignore_case {
        " -i"@
    } else {
        Seq::empty()
    }) + (if options.before_context > 0 {
        " -B "@ + decimal(options.before_context as nat)
    } else {
        Seq::empty()
    }) + (if options.after_context > 0 {
        " -A "@ + decimal(options.after_context as nat)
    } else {
        Seq::empty()
    }) + " -e "@ + shell_quoted(options.pattern)
}

/// The words of the command that runs a search with the given options, the
/// program first: `git`, `grep`, `-n`, then `-i` where case is ignored, `-B`
/// and the number of lines where lines before a match are shown, `-A` and
/// the number of lines where lines after a match are shown, then `-e` and
/// the pattern as it is.
pub open spec fn command_words(options: GrepOptionsView) -> Seq<Seq<char>> {
    seq!["git"@, "grep"@, "-n"@] + (if options.ignore_case {
        seq!["-i"@]
    } else {
        Seq::empty()
    }) + (if options.before_context > 0 {
        seq!["-B"@, decimal(options.before_context as nat)]
    } else {
        Seq::empty()
    }) + (if options.after_context > 0 {
        seq!["-A"@, decimal(options.after_context as nat)]
    } else {
        Seq::empty()
    }) + seq!["-e"@, options.pattern]
}

/// The first `upto` of `words`, with one space between each two.
pub open spec fn joined_upto(words: Seq<Seq<char>>, upto: int) -> Seq<char>
    decreases upto,
{
    if upto <= 0 {
        Seq::empty()
    } else if upto == 1 {
        words[0]
    } else {
        joined_upto(words, upto - 1) + seq![' '] + words[upto - 1]
    }
}

/// The texts of a list of strings.
pub open spec fn words_of(args: Seq<String>) -> Seq<Seq<char>> {
    Seq::new(args.len(), |i: int| args[i]@)
}

/// The command line is the words of the command with one space between each
/// two, the last word, which is the pattern, quoted.
pub proof fn law_command_line_joins_words(options: GrepOptionsView)
    ensures
        command_line(options) == joined_upto(
            command_words(options),
            command_words(options).len() - 1,
        ) + seq![' '] + shell_quoted(command_words(options).last()),
{
    reveal_strlit("git grep -n");
    reveal_strlit(" -i");
    reveal_strlit(" -B ");
    reveal_strlit(" -A ");
    reveal_strlit(" -e ");
    reveal_strlit("git");
    reveal_strlit("grep");
    reveal_strlit("-n");
    reveal_strlit("-i");
    reveal_strlit("-B");
    reveal_strlit("-A");
    reveal_strlit("-e");
    let words = command_words(options);
    let head = seq!["git"@, "grep"@, "-n"@];
    let case = if options.ignore_case {
        seq!["-i"@]
    } else {
        Seq::<Seq<char>>::empty()
    };
    let before = if options.before_context > 0 {
        seq!["-B"@, decimal(options.before_context as nat)]
    } else {
        Seq::<Seq<char>>::empty()
    };
    let after = if options.after_context > 0 {
        seq!["-A"@, decimal(options.after_context as nat)]
    } else {
        Seq::<Seq<char>>::empty()
    };
    let w1 = head;
    let w2 = w1 + case;
    let w3 = w2 + before;
    let w4 = w3 + after;
    assert(words =~= w4 + seq!["-e"@, options.pattern]);
    let t1 = "git grep -n"@;
    let t2 = t1 + (if options.ignore_case {
        " -i"@
    } else {
        Seq::empty()
    });
    let t3 = t2 + (if options.before_context > 0 {
        " -B "@ + decimal(options.before_context as nat)
    } else {
        Seq::empty()
    });
    let t4 = t3 + (if options.after_context > 0 {
        " -A "@ + decimal(options.after_context as nat)
    } else {
        Seq::empty()
    });
    lemma_joined_prefix(w1, words, 3);
    assert(joined_upto(w1, 3) =~= t1) by {
        reveal_with_fuel(joined_upto, 4);
    }
    lemma_joined_extended(w1, case, words);
    assert(joined_upto(words, w2.len() as int) =~= t2);
    lemma_joined_extended(w2, before, words);
    assert(joined_upto(words, w3.len() as int) =~= t3);
    lemma_joined_extended(w3, after, words);
    assert(joined_upto(words, w4.len() as int) =~= t4);
    assert(joined_upto(words, words.len() - 1) =~= t4 + seq![' '] + "-e"@) by {
        assert(words.len() - 1 == w4.len() + 1);
        assert(words[w4.len() as int] == "-e"@);
    }
    assert(command_line(options) =~= t4 + " -e "@ + shell_quoted(options.pattern));
    assert(words.last() == options.pattern);
    assert(t4 + " -e "@ =~= t4 + seq![' '] + "-e"@ + seq![' ']);
}

/// Joining a prefix of `words` is joining that prefix of any list that
/// starts with the same words.
proof fn lemma_joined_prefix(prefix: Seq<Seq<char>>, words: Seq<Seq<char>>, upto: int)
    requires
        0 <= upto <= prefix.len() <= words.len(),
        forall|i: int| 0 <= i < prefix.len() ==> prefix[i] == words[i],
    ensures
        joined_upto(prefix, upto) == joined_upto(words, upto),
    decreases upto,
{
    if upto > 1 {
        lemma_joined_prefix(prefix, words, upto - 1);
    }
}

/// Joining a non-empty list with at most two more words behind it adds a
/// space and a word for each of them.
proof fn lemma_joined_extended(prefix: Seq<Seq<char>>, more: Seq<Seq<char>>, words: Seq<Seq<char>>)
    requires
        prefix.len() >= 1,
        more.len() <= 2,
        prefix.len() + more.len() <= words.len(),
        forall|i: int| 0 <= i < prefix.len() ==> prefix[i] == words[i],
        forall|i: int| 0 <= i < more.len() ==> more[i] == words[prefix.len() + i],
    ensures
        joined_upto(words, (prefix + more).len() as int) == joined_upto(
            words,
            prefix.len() as int,
        ) + (if more.len() == 0 {
            Seq::<char>::empty()
        } else if more.len() == 1 {
            seq![' '] + more[0]
        } else {
            seq![' '] + more[0] + seq![' '] + more[1]
        }),
        forall|i: int| 0 <= i < (prefix + more).len() ==> (prefix + more)[i] == words[i],
{
    reveal_with_fuel(joined_upto, 3);
    let base = joined_upto(words, prefix.len() as int);
    if more.len() == 0 {
        assert(base =~= base + Seq::<char>::empty());
    } else if more.len() == 1 {
        assert(joined_upto(words, (prefix.len() + 1) as int) =~= base + (seq![' '] + more[0]));
    } else {
        assert(joined_upto(words, (prefix.len() + 2) as int) =~= base + (seq![' '] + more[0] + seq![' ']
            + more[1]));
    }
}

/// Appends `text` to `out` as one quoted word of a shell command line.
pub fn push_shell_quoted(out: &mut String, text: &str)
    ensures
        final(out)@ == old(out)@ + shell_quoted(text@),
{
    out.push('\'');
    let ghost start = out@;
    let mut i: usize = 0;
    for c in it: text.chars()
        invariant
            it.seq() == text@,
            out@ == start + quoted_body(text@, it.index() as int),
    {
        let ghost before = out@;
        if c == '\'' {
            out.push('\'');
            out.push('\\');
            out.push('\'');
            out.push('\'');
            assert(out@ =~= before + seq!['\'', '\\', '\'', '\'']);
        } else {
            out.push(c);
        }
        assert(out@ =~= start + quoted_body(text@, it.index() + 1));
    }
    out.push('\'');
    assert(out@ =~= old(out)@ + shell_quoted(text@));
}

impl GrepOptions {
    /// The words of the command that runs a search with these options, the
    /// program first.
    pub fn command_args(&self) -> (args: Vec<String>)
        ensures
            words_of(args@) == command_words(self@),
    {
        let mut args: Vec<String> = Vec::new();
        args.push(String::from_str("git"));
        args.push(String::from_str("grep"));
        args.push(String::from_str("-n"));
        if self.ignore_case {
            args.push(String::from_str("-i"));
        }
        if self.before_context > 0 {
            args.push(String::from_str("-B"));
            let mut lines = String::new();
            push_decimal(&mut lines, self.before_context as u128);
            assert(lines@ =~= decimal(self.before_context as nat));
            args.push(lines);
        }
        if self.after_context > 0 {
            args.push(String::from_str("-A"));
            let mut lines = String::new();
            push_decimal(&mut lines, self.after_context as u128);
            assert(lines@ =~= decimal(self.after_context as nat));
            args.push(lines);
        }
        args.push(String::from_str("-e"));
        args.push(self.pattern.clone());
        assert(words_of(args@) =~= command_words(self@));
        args
    }

    /// The command line that stands for a search with these options, for
    /// display and for use in a shell.
    pub fn command_string(&self) -> (command: String)
        ensures
            command@ == command_line(self@),
    {
        let mut command = String::from_str("git grep -n");
        if self.ignore_case {
            command.append(" -i");
        }
        if self.before_context > 0 {
            command.append(" -B ");
            push_decimal(&mut command, self.before_context as u128);
        }
        if self.after_context > 0 {
            command.append(" -A ");
            push_decimal(&mut command, self.after_context as u128);
        }
        command.append(" -e ");
        push_shell_quoted(&mut command, self.pattern.as_str());
        assert(command@ =~= command_line(self@));
        command
    }
}

/// The index of the first of `keys`, at or after `from`, that is `key`; the
/// number of keys where there is none.
pub open spec fn first_index<K>(keys: Seq<K>, key: K, from: int) -> int
    decreases keys.len() - from,
{
    if from < 0 || from >= keys.len() {
        keys.len() as int
    } else if keys[from] == key {
        from
    } else {
        first_index(keys, key, from + 1)
    }
}

/// What the first index is: no key before it, from `from` on, is `key`, and
/// the key at it is, where it lies among the keys.
pub proof fn lemma_first_index<K>(keys: Seq<K>, key: K, from: int)
    requires
        0 <= from <= keys.len(),
    ensures
        from <= first_index(keys, key, from) <= keys.len(),
        first_index(keys, key, from) < keys.len() ==> keys[first_index(keys, key, from)] == key,
        forall|i: int| from <= i < first_index(keys, key, from) ==> keys[i] != key,
    decreases keys.len() - from,
{
    if from < keys.len() && keys[from] != key {
        lemma_first_index(keys, key, from + 1);
    }
}

/// An index with no `key` before it, from `from` on, and with `key` at it
/// where it lies among the keys, is the first index.
pub proof fn lemma_first_index_is<K>(keys: Seq<K>, key: K, from: int, index: int)
    requires
        0 <= from <= index <= keys.len(),
        forall|i: int| from <= i < index ==> keys[i] != key,
        index < keys.len() ==> keys[index] == key,
    ensures
        first_index(keys, key, from) == index,
    decreases index - from,
{
    if from < index {
        lemma_first_index_is(keys, key, from + 1, index);
    }
}

/// One line of a file that the search found.
#[derive(Debug)]
pub struct MatchLine {
    /// The number of the line in its file.
    pub number: usize,
    pub text: String,
}

/// One matched span of a line: where it starts, counted in characters from
/// the start of the line, and how many characters it has.
#[derive(Clone, Copy, Debug, PartialEq, Eq, Structural)]
pub struct MatchedColumn {
    pub column_offset: usize,
    pub text_chars: usize,
}

/// The matched spans of one line.
#[derive(Debug)]
pub struct LineHighlight {
    pub number: usize,
    pub columns: Vec<MatchedColumn>,
}

/// The matched spans of one file: a mapping from line numbers to spans, kept
/// as a list of entries. Of several entries for one line number the first
/// counts; a well-formed value has one at most.
#[derive(Debug)]
pub struct FileHighlight {
    pub file: String,
    pub lines: Vec<LineHighlight>,
}

/// The matched spans of a whole result: a mapping from paths to the spans of
/// a file, kept as a list of entries. Of several entries for one path the
/// first counts; a well-formed value has one at most.
#[derive(Debug)]
pub struct Highlight {
    pub lines: Vec<FileHighlight>,
}

/// The lines of one file that the search found, in the order of the file.
#[derive(Debug)]
pub struct FileMatches {
    pub file: String,
    pub lines: Vec<MatchLine>,
}

/// What a search hands back: the files with the lines found in them, in the
/// order in which they are shown, the matched spans, and the width that line
/// numbers are padded to.
#[derive(Debug)]
pub struct SearchResult {
    pub files: Vec<FileMatches>,
    pub highlight: Highlight,
    pub max_line_width: usize,
}

impl FileHighlight {
    /// The line numbers of the entries, in their order.
    pub open spec fn numbers(self) -> Seq<usize> {
        Seq::new(self.lines@.len(), |i: int| self.lines[i].number)
    }

    /// No line number has two entries.
    pub open spec fn wf(self) -> bool {
        self.numbers().no_duplicates()
    }

    /// The matched spans of line `number`; none where the line has no entry.
    pub open spec fn spec_columns(self, number: usize) -> Seq<MatchedColumn> {
        let i = first_index(self.numbers(), number, 0);
        if i < self.lines.len() {
            self.lines[i].columns@
        } else {
            Seq::empty()
        }
    }

    /// The number of matched spans in the first `upto` entries.
    pub open spec fn hits_upto(self, upto: int) -> nat
        decreases upto,
    {
        if upto <= 0 {
            0
        } else {
            self.hits_upto(upto - 1) + self.lines[upto - 1].columns@.len()
        }
    }

    /// The number of matched spans of the file, over all its entries.
    pub open spec fn spec_hits(self) -> nat {
        self.hits_upto(self.lines.len() as int)
    }

    /// The index of the first entry of line `number`, if the line has one.
    pub fn find_line(&self, number: usize) -> (found: Option<usize>)
        ensures
            found is Some <==> first_index(self.numbers(), number, 0) < self.lines.len(),
            found is Some ==> found->0 == first_index(self.numbers(), number, 0),
    {
        let mut i: usize = 0;
        while i < self.lines.len()
            invariant
                i <= self.lines.len(),
                first_index(self.numbers(), number, 0) == first_index(
                    self.numbers(),
                    number,
                    i as int,
                ),
            decreases self.lines.len() - i,
        {
            if self.lines[i].number == number {
                return Some(i);
            }
            i += 1;
        }
        None
    }

    /// The entry of line `number`, if the line has one.
    pub fn line(&self, number: usize) -> (found: Option<&LineHighlight>)
        ensures
            found is Some <==> first_index(self.numbers(), number, 0) < self.lines.len(),
            found is Some ==> *found->0 == self.lines[first_index(self.numbers(), number, 0)],
            found is Some ==> found->0.columns@ == self.spec_columns(number),
            found is None ==> self.spec_columns(number) == Seq::<MatchedColumn>::empty(),
    {
        match self.find_line(number) {
            Some(i) => Some(&self.lines[i]),
            None => None,
        }
    }

    /// The number of matched spans of the file, over all its entries.
    pub fn hits(&self) -> (hits: u128)
        ensures
            hits == self.spec_hits(),
    {
        let mut hits: u128 = 0;
        let mut i: usize = 0;
        while i < self.lines.len()
            invariant
                i <= self.lines.len(),
                hits == self.hits_upto(i as int),
                hits <= i * usize::MAX,
            decreases self.lines.len() - i,
        {
            let count = self.lines[i].columns.len();
            assert(hits + count <= u128::MAX && hits + count <= (i + 1) * usize::MAX)
                by (nonlinear_arith)
                requires
                    hits <= i * usize::MAX,
                    count <= usize::MAX,
                    i < usize::MAX,
                    usize::MAX <= 0xffff_ffff_ffff_ffff,
                    u128::MAX == 0xffff_ffff_ffff_ffff_ffff_ffff_ffff_ffff,
            ;
            hits = hits + count as u128;
            i += 1;
        }
        hits
    }

    /// Adds a matched span to line `number`: behind the spans that the line
    /// has, or as the first span of a new entry behind the other entries.
    pub fn add_match(&mut self, number: usize, column: MatchedColumn)
        ensures
            final(self).file == old(self).file,
            final(self).numbers() == (if old(self).numbers().contains(number) {
                old(self).numbers()
            } else {
                old(self).numbers().push(number)
            }),
            forall|n: usize|
                #![trigger final(self).spec_columns(n)]
                final(self).spec_columns(n) == (if n == number {
                    old(self).spec_columns(n).push(column)
                } else {
                    old(self).spec_columns(n)
                }),
            final(self).spec_hits() == old(self).spec_hits() + 1,
            old(self).wf() ==> final(self).wf(),
    {
        let ghost before = *self;
        proof {
            lemma_first_index(before.numbers(), number, 0);
        }
        match self.find_line(number) {
            Some(i) => {
                self.lines[i].columns.push(column);
                proof {
                    let after = *self;
                    assert(after.numbers() =~= before.numbers());
                    lemma_hits_bumped(before, after, i as int, after.lines.len() as int);
                    assert forall|n: usize|
                        #![trigger after.spec_columns(n)]
                        after.spec_columns(n) == (if n == number {
                            before.spec_columns(n).push(column)
                        } else {
                            before.spec_columns(n)
                        }) by {
                        lemma_first_index(before.numbers(), n, 0);
                    }
                }
            },
            None => {
                let mut columns: Vec<MatchedColumn> = Vec::new();
                columns.push(column);
                self.lines.push(LineHighlight { number, columns });
                proof {
                    let after = *self;
                    let count = before.lines.len() as int;
                    assert(after.numbers() =~= before.numbers().push(number));
                    lemma_hits_same(before, after, count);
                    assert forall|n: usize|
                        #![trigger after.spec_columns(n)]
                        after.spec_columns(n) == (if n == number {
                            before.spec_columns(n).push(column)
                        } else {
                            before.spec_columns(n)
                        }) by {
                        lemma_first_index(before.numbers(), n, 0);
                        let i = first_index(before.numbers(), n, 0);
                        if i < count {
                            lemma_first_index_is(after.numbers(), n, 0, i);
                        } else if n == number {
                            lemma_first_index_is(after.numbers(), n, 0, count);
                            assert(after.lines[count].columns@ =~= Seq::empty().push(column));
                        } else {
                            lemma_first_index_is(after.numbers(), n, 0, count + 1);
                        }
                    }
                }
            },
        }
    }
}

/// Two lists of entries that agree on how many spans each of their first
/// `upto` entries has hold as many spans in them.
proof fn lemma_hits_same(a: FileHighlight, b: FileHighlight, upto: int)
    requires
        0 <= upto <= a.lines.len(),
        upto <= b.lines.len(),
        forall|j: int| 0 <= j < upto ==> a.lines[j].columns@.len() == b.lines[j].columns@.len(),
    ensures
        a.hits_upto(upto) == b.hits_upto(upto),
    decreases upto,
{
    if upto > 0 {
        lemma_hits_same(a, b, upto - 1);
    }
}

/// Where entry `at` of `b` has one span more than that of `a` and all other
/// entries have as many, the first `upto` entries of `b` hold one span more
/// as soon as they reach past `at`.
proof fn lemma_hits_bumped(a: FileHighlight, b: FileHighlight, at: int, upto: int)
    requires
        0 <= at < a.lines.len(),
        a.lines.len() == b.lines.len(),
        0 <= upto <= a.lines.len(),
        b.lines[at].columns@.len() == a.lines[at].columns@.len() + 1,
        forall|j: int|
            0 <= j < a.lines.len() && j != at ==> a.lines[j].columns@.len()
                == b.lines[j].columns@.len(),
    ensures
        b.hits_upto(upto) == a.hits_upto(upto) + (if upto > at {
            1nat
        } else {
            0nat
        }),
    decreases upto,
{
    if upto > 0 {
        lemma_hits_bumped(a, b, at, upto - 1);
    }
}

impl Highlight {
    /// The paths of the entries, in their order.
    pub open spec fn paths(self) -> Seq<Seq<char>> {
        Seq::new(self.lines@.len(), |i: int| self.lines[i].file@)
    }

    /// No path has two entries, and in no entry a line number has two.
    pub open spec fn wf(self) -> bool {
        &&& self.paths().no_duplicates()
        &&& forall|i: int| 0 <= i < self.lines.len() ==> (#[trigger] self.lines[i]).wf()
    }

    /// The number of matched spans of the file at `file`; zero where the
    /// file has no entry.
    pub open spec fn spec_hits(self, file: Seq<char>) -> nat {
        let i = first_index(self.paths(), file, 0);
        if i < self.lines.len() {
            self.lines[i].spec_hits()
        } else {
            0
        }
    }

    /// The matched spans of line `number` of the file at `file`; none where
    /// the file or the line has no entry.
    pub open spec fn spec_columns(self, file: Seq<char>, number: usize) -> Seq<MatchedColumn> {
        let i = first_index(self.paths(), file, 0);
        if i < self.lines.len() {
            self.lines[i].spec_columns(number)
        } else {
            Seq::empty()
        }
    }

    /// The index of the first entry of the file at `file`, if the file has
    /// one.
    pub fn find_file(&self, file: &str) -> (found: Option<usize>)
        ensures
            found is Some <==> first_index(self.paths(), file@, 0) < self.lines.len(),
            found is Some ==> found->0 == first_index(self.paths(), file@, 0),
    {
        let key = String::from_str(file);
        let mut i: usize = 0;
        while i < self.lines.len()
            invariant
                i <= self.lines.len(),
                key@ == file@,
                first_index(self.paths(), file@, 0) == first_index(self.paths(), file@, i as int),
            decreases self.lines.len() - i,
        {
            if self.lines[i].file == key {
                return Some(i);
            }
            i += 1;
        }
        None
    }

    /// The entry of the file at `file`, if the file has one.
    pub fn file(&self, file: &str) -> (found: Option<&FileHighlight>)
        ensures
            found is Some <==> first_index(self.paths(), file@, 0) < self.lines.len(),
            found is Some ==> *found->0 == self.lines[first_index(self.paths(), file@, 0)],
    {
        match self.find_file(file) {
            Some(i) => Some(&self.lines[i]),
            None => None,
        }
    }

    /// The number of matched spans of the file at `file`.
    pub fn hits(&self, file: &str) -> (hits: u128)
        ensures
            hits == self.spec_hits(file@),
    {
        match self.file(file) {
            Some(entry) => entry.hits(),
            None => 0,
        }
    }

    /// Adds a matched span to line `number` of the file at `file`: behind
    /// the spans that the line has, in a new entry for the line, or in a new
    /// entry for the file behind the other files.
    pub fn add_match(&mut self, file: &str, number: usize, column: MatchedColumn)
        ensures
            final(self).paths() == (if old(self).paths().contains(file@) {
                old(self).paths()
            } else {
                old(self).paths().push(file@)
            }),
            forall|path: Seq<char>, n: usize|
                #![trigger final(self).spec_columns(path, n)]
                final(self).spec_columns(path, n) == (if path == file@ && n == number {
                    old(self).spec_columns(path, n).push(column)
                } else {
                    old(self).spec_columns(path, n)
                }),
            forall|path: Seq<char>|
                #![trigger final(self).spec_hits(path)]
                final(self).spec_hits(path) == old(self).spec_hits(path) + (if path == file@ {
                    1nat
                } else {
                    0nat
                }),
            old(self).wf() ==> final(self).wf(),
    {
        let ghost before = *self;
        proof {
            lemma_first_index(before.paths(), file@, 0);
        }
        match self.find_file(file) {
            Some(i) => {
                self.lines[i].add_match(number, column);
                proof {
                    let after = *self;
                    assert(after.paths() =~= before.paths());
                    assert forall|path: Seq<char>|
                        #![trigger after.spec_hits(path)]
                        after.spec_hits(path) == before.spec_hits(path) + (if path == file@ {
                            1nat
                        } else {
                            0nat
                        }) by {
                        lemma_first_index(before.paths(), path, 0);
                    }
                    assert forall|path: Seq<char>, n: usize|
                        #![trigger after.spec_columns(path, n)]
                        after.spec_columns(path, n) == (if path == file@ && n == number {
                            before.spec_columns(path, n).push(column)
                        } else {
                            before.spec_columns(path, n)
                        }) by {
                        lemma_first_index(before.paths(), path, 0);
                    }
                }
            },
            None => {
                let mut entry = FileHighlight { file: String::from_str(file), lines: Vec::new() };
                let ghost fresh = entry;
                entry.add_match(number, column);
                let ghost filled = entry;
                self.lines.push(entry);
                proof {
                    let after = *self;
                    let count = before.lines.len() as int;
                    assert(fresh.numbers() =~= Seq::<usize>::empty());
                    assert(filled.numbers() =~= seq![number]);
                    assert(after.paths() =~= before.paths().push(file@));
                    assert forall|path: Seq<char>|
                        #![trigger after.spec_hits(path)]
                        after.spec_hits(path) == before.spec_hits(path) + (if path == file@ {
                            1nat
                        } else {
                            0nat
                        }) by {
                        lemma_first_index(before.paths(), path, 0);
                        let i = first_index(before.paths(), path, 0);
                        if i < count {
                            lemma_first_index_is(after.paths(), path, 0, i);
                        } else if path == file@ {
                            lemma_first_index_is(after.paths(), path, 0, count);
                        } else {
                            lemma_first_index_is(after.paths(), path, 0, count + 1);
                        }
                    }
                    assert forall|path: Seq<char>, n: usize|
                        #![trigger after.spec_columns(path, n)]
                        after.spec_columns(path, n) == (if path == file@ && n == number {
                            before.spec_columns(path, n).push(column)
                        } else {
                            before.spec_columns(path, n)
                        }) by {
                        lemma_first_index(before.paths(), path, 0);
                        let i = first_index(before.paths(), path, 0);
                        if i < count {
                            lemma_first_index_is(after.paths(), path, 0, i);
                        } else if path == file@ {
                            lemma_first_index_is(after.paths(), path, 0, count);
                            assert(fresh.spec_columns(n) =~= Seq::empty());
                        } else {
                            lemma_first_index_is(after.paths(), path, 0, count + 1);
                        }
                    }
                }
            },
        }
    }
}

impl SearchResult {
    /// The paths of the files, in the order in which they are shown.
    pub open spec fn paths(self) -> Seq<Seq<char>> {
        Seq::new(self.files@.len(), |i: int| self.files[i].file@)
    }

    /// The lines found in the file at `path`; none where the file is not
    /// in the result.
    pub open spec fn spec_lines(self, path: Seq<char>) -> Seq<MatchLine> {
        let i = first_index(self.paths(), path, 0);
        if i < self.files.len() {
            self.files[i].lines@
        } else {
            Seq::empty()
        }
    }

    /// No file stands twice in the result, the matched spans are well
    /// formed, and the numeral of no line number is wider than the width
    /// that line numbers are padded to.
    pub open spec fn wf(self) -> bool {
        &&& self.paths().no_duplicates()
        &&& self.highlight.wf()
        &&& forall|i: int, j: int|
            0 <= i < self.files.len() && 0 <= j < self.files[i].lines.len() ==> decimal(
                (#[trigger] self.files[i].lines[j]).number as nat,
            ).len() <= self.max_line_width
    }

    /// The index of the file at `file`, if the file is in the result.
    pub fn find_file(&self, file: &str) -> (found: Option<usize>)
        ensures
            found is Some <==> first_index(self.paths(), file@, 0) < self.files.len(),
            found is Some ==> found->0 == first_index(self.paths(), file@, 0),
    {
        let key = String::from_str(file);
        let mut i: usize = 0;
        while i < self.files.len()
            invariant
                i <= self.files.len(),
                key@ == file@,
                first_index(self.paths(), file@, 0) == first_index(self.paths(), file@, i as int),
            decreases self.files.len() - i,
        {
            if self.files[i].file == key {
                return Some(i);
            }
            i += 1;
        }
        None
    }

    /// Adds a found line to the file at `file`: behind the lines that the
    /// file has, or as the first line of a new file behind the other files.
    /// The width that line numbers are padded to grows to the width of the
    /// number of the line where that is larger.
    pub fn add_line(&mut self, file: &str, line: MatchLine)
        ensures
            final(self).paths() == (if old(self).paths().contains(file@) {
                old(self).paths()
            } else {
                old(self).paths().push(file@)
            }),
            forall|path: Seq<char>|
                #![trigger final(self).spec_lines(path)]
                final(self).spec_lines(path) == (if path == file@ {
                    old(self).spec_lines(path).push(line)
                } else {
                    old(self).spec_lines(path)
                }),
            final(self).max_line_width == (if decimal(line.number as nat).len() > old(
                self,
            ).max_line_width {
                decimal(line.number as nat).len()
            } else {
                old(self).max_line_width as nat
            }),
            final(self).highlight == old(self).highlight,
            old(self).wf() ==> final(self).wf(),
    {
        let ghost before = *self;
        proof {
            lemma_first_index(before.paths(), file@, 0);
        }
        let width = decimal_width(line.number);
        if width > self.max_line_width {
            self.max_line_width = width;
        }
        match self.find_file(file) {
            Some(i) => {
                self.files[i].lines.push(line);
                proof {
                    let after = *self;
                    assert(after.paths() =~= before.paths());
                    assert forall|path: Seq<char>|
                        #![trigger after.spec_lines(path)]
                        after.spec_lines(path) == (if path == file@ {
                            before.spec_lines(path).push(line)
                        } else {
                            before.spec_lines(path)
                        }) by {
                        lemma_first_index(before.paths(), path, 0);
                    }
                }
            },
            None => {
                let mut lines: Vec<MatchLine> = Vec::new();
                lines.push(line);
                self.files.push(FileMatches { file: String::from_str(file), lines });
                proof {
                    let after = *self;
                    let count = before.files.len() as int;
                    assert(after.paths() =~= before.paths().push(file@));
                    assert forall|path: Seq<char>|
                        #![trigger after.spec_lines(path)]
                        after.spec_lines(path) == (if path == file@ {
                            before.spec_lines(path).push(line)
                        } else {
                            before.spec_lines(path)
                        }) by {
                        lemma_first_index(before.paths(), path, 0);
                        let i = first_index(before.paths(), path, 0);
                        if i < count {
                            lemma_first_index_is(after.paths(), path, 0, i);
                        } else if path == file@ {
                            lemma_first_index_is(after.paths(), path, 0, count);
                            assert(after.files[count].lines@ =~= Seq::empty().push(line));
                        } else {
                            lemma_first_index_is(after.paths(), path, 0, count + 1);
                        }
                    }
                }
            },
        }
    }

    /// Adds a matched span to line `number` of the file at `file`, behind
    /// the spans that the line has.
    pub fn add_match(&mut self, file: &str, number: usize, column: MatchedColumn)
        ensures
            final(self).files == old(self).files,
            final(self).max_line_width == old(self).max_line_width,
            final(self).highlight.paths() == (if old(self).highlight.paths().contains(file@) {
                old(self).highlight.paths()
            } else {
                old(self).highlight.paths().push(file@)
            }),
            forall|path: Seq<char>, n: usize|
                #![trigger final(self).highlight.spec_columns(path, n)]
                final(self).highlight.spec_columns(path, n) == (if path == file@ && n == number {
                    old(self).highlight.spec_columns(path, n).push(column)
                } else {
                    old(self).highlight.spec_columns(path, n)
                }),
            forall|path: Seq<char>|
                #![trigger final(self).highlight.spec_hits(path)]
                final(self).highlight.spec_hits(path) == old(self).highlight.spec_hits(path) + (
                if path == file@ {
                    1nat
                } else {
                    0nat
                }),
            old(self).wf() ==> final(self).wf(),
    {
        self.highlight.add_match(file, number, column);
    }
}

impl Default for SearchResult {
    /// A result without files.
    fn default() -> (result: SearchResult)
        ensures
            result.files@.len() == 0,
            result.highlight.lines@.len() == 0,
            result.max_line_width == 0,
            result.wf(),
    {
        SearchResult { files: Vec::new(), highlight: Highlight { lines: Vec::new() }, max_line_width: 0 }
    }
}

} // verus!
