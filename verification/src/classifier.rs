//! The classification of the lines of a file into code, comments and
//! blanks.
//!
//! A file is read once, from its first line to its last, with a single bit
//! of state: whether the line at hand lies inside a multi-line comment.
//! Comment tokens are looked for at the start of a trimmed line only, so a
//! line that ends in a comment after some code counts as code.

use crate::analysis::{FileCategory, FileMetrics};
use crate::error::Result;
use crate::registry::{LanguageDefinition, LanguageRegistry};
use crate::text::{
    is_infix, is_prefix, range_contains, range_starts_with, split_on, to_chars, trim_range,
    trimmed,
};
use vstd::prelude::*;
use vstd::string::*;

verus! {

/// What a line counts as.
#[derive(Debug, Clone, Copy, PartialEq, Eq, Structural)]
pub enum LineKind {
    Blank,
    Comment,
    Code,
}

/// The comment tokens of a language: the prefixes that begin a line
/// comment, and the pairs of tokens that open and close a multi-line
/// comment.
pub struct Syntax {
    pub line_comments: Seq<Seq<char>>,
    pub blocks: Seq<(Seq<char>, Seq<char>)>,
}

impl Syntax {
    /// A syntax without comments.
    pub open spec fn none() -> Syntax {
        Syntax { line_comments: Seq::empty(), blocks: Seq::empty() }
    }

    /// The comment tokens of `definition`.
    pub open spec fn of(definition: LanguageDefinition) -> Syntax {
        Syntax {
            line_comments: Seq::new(
                definition.line_comments@.len(),
                |i: int| definition.line_comments@[i]@,
            ),
            blocks: Seq::new(
                definition.multi_line_comments@.len(),
                |i: int|
                    (definition.multi_line_comments@[i].0@, definition.multi_line_comments@[i].1@),
            ),
        }
    }

    /// The comment tokens of the language that a lookup gave, and none
    /// where it gave no language.
    pub open spec fn of_lookup(found: Option<LanguageDefinition>) -> Syntax {
        match found {
            Some(definition) => Syntax::of(definition),
            None => Syntax::none(),
        }
    }

    /// The trimmed line `line` begins with a line-comment prefix.
    pub open spec fn begins_line_comment(self, line: Seq<char>) -> bool {
        exists|i: int| 0 <= i < self.line_comments.len() && is_prefix(line, self.line_comments[i])
    }

    /// The trimmed line `line` begins with the opening token of pair `at`,
    /// and with that of no earlier pair.
    pub open spec fn opens_block(self, line: Seq<char>, at: int) -> bool {
        &&& 0 <= at < self.blocks.len()
        &&& is_prefix(line, self.blocks[at].0)
        &&& forall|earlier: int| 0 <= earlier < at ==> !is_prefix(line, self.blocks[earlier].0)
    }

    /// The trimmed line `line` begins with the opening token of some pair.
    pub open spec fn begins_block(self, line: Seq<char>) -> bool {
        exists|at: int| 0 <= at < self.blocks.len() && is_prefix(line, self.blocks[at].0)
    }

    /// The pair whose opening token the trimmed line `line` begins with.
    pub open spec fn opened_block(self, line: Seq<char>) -> int {
        choose|at: int| self.opens_block(line, at)
    }

    /// The trimmed line `line` holds the closing token of some pair.
    pub open spec fn holds_block_end(self, line: Seq<char>) -> bool {
        exists|at: int| 0 <= at < self.blocks.len() && is_infix(line, self.blocks[at].1)
    }

    /// What a line counts as, and whether the next line lies inside a
    /// multi-line comment, given whether this one does.
    pub open spec fn step(self, inside: bool, line: Seq<char>) -> (LineKind, bool) {
        let text = trimmed(line);
        if text.len() == 0 {
            (LineKind::Blank, inside)
        } else if inside {
            (LineKind::Comment, !self.holds_block_end(text))
        } else if self.begins_line_comment(text) {
            (LineKind::Comment, false)
        } else if self.begins_block(text) {
            (LineKind::Comment, !is_infix(text, self.blocks[self.opened_block(text)].1))
        } else {
            (LineKind::Code, false)
        }
    }

    /// The counts of `lines`, read in order from outside any comment.
    pub open spec fn count(self, lines: Seq<Seq<char>>) -> Tally
        decreases lines.len(),
    {
        if lines.len() == 0 {
            Tally { code: 0, comments: 0, blanks: 0, inside: false }
        } else {
            let before = self.count(lines.drop_last());
            let (kind, inside) = self.step(before.inside, lines.last());
            match kind {
                LineKind::Blank => Tally { blanks: before.blanks + 1, inside, ..before },
                LineKind::Comment => Tally { comments: before.comments + 1, inside, ..before },
                LineKind::Code => Tally { code: before.code + 1, inside, ..before },
            }
        }
    }
}

/// How many lines of each kind were read, and whether the last of them
/// left a multi-line comment open.
pub struct Tally {
    pub code: nat,
    pub comments: nat,
    pub blanks: nat,
    pub inside: bool,
}

/// The lines of `content`: what stands between its line feeds, without the
/// empty piece after a final line feed. An empty content has no lines. A
/// carriage return before a line feed stays on its line, where it is
/// trimmed away with the other white space.
pub open spec fn lines_of(content: Seq<char>) -> Seq<Seq<char>> {
    let pieces = split_on(content, '\n');
    if pieces.last().len() == 0 {
        pieces.drop_last()
    } else {
        pieces
    }
}

/// The number of lines of each kind in a file.
#[derive(Debug, Clone, Copy, PartialEq, Eq, Structural)]
pub struct LineCounts {
    pub total_lines: usize,
    pub code_lines: usize,
    pub comment_lines: usize,
    pub blank_lines: usize,
}

/// Every line is counted once.
pub proof fn lemma_count_covers(syntax: Syntax, lines: Seq<Seq<char>>)
    ensures
        syntax.count(lines).code + syntax.count(lines).comments + syntax.count(lines).blanks
            == lines.len(),
    decreases lines.len(),
{
    if lines.len() > 0 {
        lemma_count_covers(syntax, lines.drop_last());
    }
}

/// A language without comment tokens has no comment lines: every line that
/// is not blank is code.
pub proof fn law_no_tokens_no_comments(lines: Seq<Seq<char>>)
    ensures
        Syntax::none().count(lines).comments == 0,
        !Syntax::none().count(lines).inside,
    decreases lines.len(),
{
    if lines.len() > 0 {
        law_no_tokens_no_comments(lines.drop_last());
    }
}

/// The only pair that `opens_block` admits is the one that `opened_block`
/// names.
proof fn lemma_opened_block_is(syntax: Syntax, line: Seq<char>, at: int)
    requires
        syntax.opens_block(line, at),
    ensures
        syntax.begins_block(line),
        syntax.opened_block(line) == at,
{
    let chosen = syntax.opened_block(line);
    assert(syntax.opens_block(line, chosen));
    if chosen < at {
        assert(!is_prefix(line, syntax.blocks[chosen].0));
    }
    if at < chosen {
        assert(!is_prefix(line, syntax.blocks[at].0));
    }
}

/// The characters of each of `tokens`.
fn token_chars(tokens: &Vec<String>) -> (chars: Vec<Vec<char>>)
    ensures
        chars@.len() == tokens@.len(),
        forall|i: int| 0 <= i < chars@.len() ==> (#[trigger] chars@[i])@ == tokens@[i]@,
{
    let mut chars: Vec<Vec<char>> = Vec::new();
    let mut i: usize = 0;
    while i < tokens.len()
        invariant
            i <= tokens@.len(),
            chars@.len() == i,
            forall|j: int| 0 <= j < i ==> (#[trigger] chars@[j])@ == tokens@[j]@,
        decreases tokens@.len() - i,
    {
        chars.push(to_chars(tokens[i].as_str()));
        i += 1;
    }
    chars
}

/// The characters of the opening and of the closing token of each of
/// `pairs`.
fn pair_chars(pairs: &Vec<(String, String)>) -> (chars: (Vec<Vec<char>>, Vec<Vec<char>>))
    ensures
        chars.0@.len() == pairs@.len(),
        chars.1@.len() == pairs@.len(),
        forall|i: int| 0 <= i < pairs@.len() ==> (#[trigger] chars.0@[i])@ == pairs@[i].0@,
        forall|i: int| 0 <= i < pairs@.len() ==> (#[trigger] chars.1@[i])@ == pairs@[i].1@,
{
    let mut opening: Vec<Vec<char>> = Vec::new();
    let mut closing: Vec<Vec<char>> = Vec::new();
    let mut i: usize = 0;
    while i < pairs.len()
        invariant
            i <= pairs@.len(),
            opening@.len() == i,
            closing@.len() == i,
            forall|j: int| 0 <= j < i ==> (#[trigger] opening@[j])@ == pairs@[j].0@,
            forall|j: int| 0 <= j < i ==> (#[trigger] closing@[j])@ == pairs@[j].1@,
        decreases pairs@.len() - i,
    {
        opening.push(to_chars(pairs[i].0.as_str()));
        closing.push(to_chars(pairs[i].1.as_str()));
        i += 1;
    }
    (opening, closing)
}

/// The comment tokens of a language, ready for matching.
struct Tokens {
    line_comments: Vec<Vec<char>>,
    opening: Vec<Vec<char>>,
    closing: Vec<Vec<char>>,
}

impl Tokens {
    spec fn stands_for(&self, syntax: Syntax) -> bool {
        &&& self.line_comments@.len() == syntax.line_comments.len()
        &&& self.opening@.len() == syntax.blocks.len()
        &&& self.closing@.len() == syntax.blocks.len()
        &&& forall|i: int|
            0 <= i < self.line_comments@.len() ==> (#[trigger] self.line_comments@[i])@
                == syntax.line_comments[i]
        &&& forall|i: int|
            0 <= i < self.opening@.len() ==> (#[trigger] self.opening@[i])@ == syntax.blocks[i].0
        &&& forall|i: int|
            0 <= i < self.closing@.len() ==> (#[trigger] self.closing@[i])@ == syntax.blocks[i].1
    }

    /// What the line in the range `from..to` of `text` counts as, and
    /// whether the next line lies inside a multi-line comment.
    #[verifier::loop_isolation(false)]
    fn classify_line(&self, text: &Vec<char>, from: usize, to: usize, inside: bool, Ghost(
        syntax,
    ): Ghost<Syntax>) -> (outcome: (LineKind, bool))
        requires
            from <= to <= text@.len(),
            self.stands_for(syntax),
        ensures
            outcome == syntax.step(inside, text@.subrange(from as int, to as int)),
    {
        let (start, end) = trim_range(text, from, to);
        let ghost line = text@.subrange(start as int, end as int);
        if start == end {
            return (LineKind::Blank, inside);
        }
        if inside {
            let mut at: usize = 0;
            while at < self.closing.len()
                invariant
                    at <= self.closing@.len(),
                    self.stands_for(syntax),
                    start <= end <= text@.len(),
                    line == text@.subrange(start as int, end as int),
                    forall|earlier: int|
                        0 <= earlier < at ==> !is_infix(line, syntax.blocks[earlier].1),
                decreases self.closing@.len() - at,
            {
                if range_contains(text, start, end, &self.closing[at]) {
                    assert(is_infix(line, syntax.blocks[at as int].1));
                    assert(syntax.holds_block_end(line));
                    return (LineKind::Comment, false);
                }
                at += 1;
            }
            return (LineKind::Comment, true);
        }
        let mut at: usize = 0;
        while at < self.line_comments.len()
            invariant
                at <= self.line_comments@.len(),
                self.stands_for(syntax),
                start <= end <= text@.len(),
                line == text@.subrange(start as int, end as int),
                forall|earlier: int|
                    0 <= earlier < at ==> !is_prefix(line, syntax.line_comments[earlier]),
            decreases self.line_comments@.len() - at,
        {
            if range_starts_with(text, start, end, &self.line_comments[at]) {
                assert(is_prefix(line, syntax.line_comments[at as int]));
                assert(syntax.begins_line_comment(line));
                return (LineKind::Comment, false);
            }
            at += 1;
        }
        let mut at: usize = 0;
        while at < self.opening.len()
            invariant
                at <= self.opening@.len(),
                self.stands_for(syntax),
                start <= end <= text@.len(),
                line == text@.subrange(start as int, end as int),
                !syntax.begins_line_comment(line),
                forall|earlier: int| 0 <= earlier < at ==> !is_prefix(line, syntax.blocks[earlier].0),
            decreases self.opening@.len() - at,
        {
            if range_starts_with(text, start, end, &self.opening[at]) {
                proof {
                    assert(is_prefix(line, syntax.blocks[at as int].0));
                    assert(syntax.opens_block(line, at as int));
                    lemma_opened_block_is(syntax, line, at as int);
                }
                let closed = range_contains(text, start, end, &self.closing[at]);
                return (LineKind::Comment, !closed);
            }
            at += 1;
        }
        (LineKind::Code, false)
    }
}

/// The counts that `tally` gives for a file of `total` lines.
pub open spec fn counts_of(tally: Tally, total: nat) -> LineCounts {
    LineCounts {
        total_lines: total as usize,
        code_lines: tally.code as usize,
        comment_lines: tally.comments as usize,
        blank_lines: tally.blanks as usize,
    }
}

/// Counts the lines of `content` by kind, for a language with the given
/// line-comment prefixes and multi-line comment pairs.
pub fn count_lines(
    content: &str,
    line_comments: &Vec<String>,
    multi_line_comments: &Vec<(String, String)>,
) -> (counts: LineCounts)
    ensures
        ({
            let syntax = Syntax {
                line_comments: Seq::new(line_comments@.len(), |i: int| line_comments@[i]@),
                blocks: Seq::new(
                    multi_line_comments@.len(),
                    |i: int| (multi_line_comments@[i].0@, multi_line_comments@[i].1@),
                ),
            };
            counts == counts_of(
                syntax.count(lines_of(content@)),
                lines_of(content@).len(),
            )
        }),
        counts.total_lines == counts.code_lines + counts.comment_lines + counts.blank_lines,
        counts.total_lines == lines_of(content@).len(),
{
    let ghost syntax = Syntax {
        line_comments: Seq::new(line_comments@.len(), |i: int| line_comments@[i]@),
        blocks: Seq::new(
            multi_line_comments@.len(),
            |i: int| (multi_line_comments@[i].0@, multi_line_comments@[i].1@),
        ),
    };
    let text = to_chars(content);
    let (opening, closing) = pair_chars(multi_line_comments);
    let tokens = Tokens { line_comments: token_chars(line_comments), opening, closing };
    let mut code: usize = 0;
    let mut comments: usize = 0;
    let mut blanks: usize = 0;
    let mut inside = false;
    let mut start: usize = 0;
    let mut i: usize = 0;
    while i < text.len()
        invariant
            text@ == content@,
            tokens.stands_for(syntax),
            start <= i <= text@.len(),
            split_on(text@.take(i as int), '\n').len() >= 1,
            split_on(text@.take(i as int), '\n').last() == text@.subrange(start as int, i as int),
            ({
                let tally = syntax.count(split_on(text@.take(i as int), '\n').drop_last());
                &&& tally.code == code
                &&& tally.comments == comments
                &&& tally.blanks == blanks
                &&& tally.inside == inside
            }),
            code + comments + blanks == split_on(text@.take(i as int), '\n').len() - 1,
            code + comments + blanks <= start,
        decreases text@.len() - i,
    {
        let ghost before = split_on(text@.take(i as int), '\n');
        proof {
            assert(text@.take(i + 1).drop_last() =~= text@.take(i as int));
            assert(text@.take(i + 1).last() == text@[i as int]);
        }
        if text[i] == '\n' {
            let (kind, next) = tokens.classify_line(&text, start, i, inside, Ghost(syntax));
            proof {
                assert(before.push(Seq::<char>::empty()).drop_last() =~= before);
                assert(text@.subrange(i + 1, i + 1) =~= Seq::<char>::empty());
            }
            match kind {
                LineKind::Blank => {
                    blanks += 1;
                },
                LineKind::Comment => {
                    comments += 1;
                },
                LineKind::Code => {
                    code += 1;
                },
            }
            inside = next;
            start = i + 1;
        } else {
            proof {
                let after = before.drop_last().push(before.last().push(text@[i as int]));
                assert(after.drop_last() =~= before.drop_last());
                assert(text@.subrange(start as int, i + 1) =~= text@.subrange(
                    start as int,
                    i as int,
                ).push(text@[i as int]));
            }
        }
        i += 1;
    }
    proof {
        assert(text@.take(i as int) =~= text@);
    }
    if start < i {
        let (kind, next) = tokens.classify_line(&text, start, i, inside, Ghost(syntax));
        proof {
            lemma_count_covers(syntax, split_on(text@, '\n'));
        }
        match kind {
            LineKind::Blank => {
                blanks += 1;
            },
            LineKind::Comment => {
                comments += 1;
            },
            LineKind::Code => {
                code += 1;
            },
        }
    } else {
        proof {
            lemma_count_covers(syntax, split_on(text@, '\n').drop_last());
        }
    }
    LineCounts {
        total_lines: code + comments + blanks,
        code_lines: code,
        comment_lines: comments,
        blank_lines: blanks,
    }
}

/// The record of the file at `file_path`, written in `language`, with the
/// given content and size: its lines are counted with the comment tokens
/// that the catalogue holds for the language, and with none where the
/// catalogue does not know the language.
pub fn analyze_file_content(
    registry: &LanguageRegistry,
    file_path: &str,
    content: &str,
    language: &str,
    file_size: u64,
) -> (analysed: Result<FileMetrics>)
    ensures
        analysed matches Ok(metrics) && metrics.file_path@ == file_path@ && metrics.language@
            == language@ && metrics.size_bytes == file_size && metrics.category
            == FileCategory::Source && counts_of(
            Syntax::of_lookup(registry.named(language@)).count(lines_of(content@)),
            lines_of(content@).len(),
        ) == (LineCounts {
            total_lines: metrics.total_lines,
            code_lines: metrics.code_lines,
            comment_lines: metrics.comment_lines,
            blank_lines: metrics.blank_lines,
        }) && metrics.total_lines == lines_of(content@).len() && metrics.counts_add_up(),
{
    let found = registry.get_language(language);
    let counts = match found {
        Some(definition) => {
            count_lines(content, &definition.line_comments, &definition.multi_line_comments)
        },
        None => {
            let no_prefixes: Vec<String> = Vec::new();
            let no_pairs: Vec<(String, String)> = Vec::new();
            proof {
                assert(Syntax::none().line_comments =~= Seq::new(
                    no_prefixes@.len(),
                    |i: int| no_prefixes@[i]@,
                ));
                assert(Syntax::none().blocks =~= Seq::new(
                    no_pairs@.len(),
                    |i: int| (no_pairs@[i].0@, no_pairs@[i].1@),
                ));
            }
            count_lines(content, &no_prefixes, &no_pairs)
        },
    };
    let created = FileMetrics::new(
        file_path,
        language.to_string(),
        counts.total_lines,
        counts.code_lines,
        counts.comment_lines,
        counts.blank_lines,
    );
    match created {
        Ok(metrics) => Ok(metrics.with_size_bytes(file_size)),
        Err(e) => Err(e),
    }
}

} // verus!
