//! How deep a TOML text nests: a measure, taken in one pass over the
//! text, that is at least the number of arrays and tables that lie
//! around any value of the document, the document's own table aside.
//!
//! Around a value lie the arrays and inline tables that are open where
//! it stands, the tables that the dotted keys on the way to it name, and
//! the tables and the array that the header of its table names. The
//! measure follows the text as a TOML reader does: it passes over
//! comments and over quoted text (basic and literal, on one line or over
//! several), and it takes as the depth of a place
//!
//! - in a header, the `[` and `.` of the header so far;
//! - elsewhere, the `[` and `.` of the header last read, one for each
//!   array and inline table that is open there, the `.` of the keys
//!   under which they stand, and the `.` of the key at hand.
//!
//! A `.` inside a number or a quoted text does not count, nor does what
//! was closed again: a long text is not a deep one. Where a text is not
//! TOML, the measure is taken all the same.

use crate::text::to_chars;
use crate::views::seq_view;
use vstd::prelude::*;

verus! {

/// Where in the text the pass stands.
#[derive(Debug, Clone, Copy, PartialEq, Eq, Structural)]
pub enum Lex {
    /// Outside comments and quoted text.
    Plain,
    /// In a comment, which ends with its line.
    Comment,
    /// Behind one opening quote.
    Opened1,
    /// Behind two opening quotes: an empty text, or the start of a text
    /// over several lines.
    Opened2,
    /// In a quoted text on one line.
    Short,
    /// In a basic text on one line, behind a backslash.
    ShortEscaped,
    /// In a quoted text over several lines.
    Long,
    /// In a basic text over several lines, behind a backslash.
    LongEscaped,
    /// In a text over several lines, behind one quote.
    LongQuote1,
    /// In a text over several lines, behind two quotes.
    LongQuote2,
    /// Behind the three quotes that end a text over several lines; up to
    /// two more quotes belong to the text.
    Closed3,
    /// Behind four such quotes.
    Closed4,
}

/// An array or inline table that is open.
pub struct Frame {
    /// The depth of what stood around it, to which the pass goes back
    /// where it closes.
    pub base: nat,
    /// Whether it is an inline table (`{`), else an array (`[`).
    pub table: bool,
}

/// The state of the pass.
pub struct Scan {
    pub lex: Lex,
    /// Whether the quoted text at hand is a basic one (`"`), in which a
    /// backslash takes the next character with it; else a literal one
    /// (`'`).
    pub basic: bool,
    /// The arrays and inline tables that are open, the innermost last.
    pub frames: Seq<Frame>,
    /// The depth at which the innermost of them puts its items; outside
    /// all of them, that of the header last read.
    pub base: nat,
    /// The `.` counted in the key at hand.
    pub dots: nat,
    /// The `[` and `.` of the header that was last read.
    pub header: nat,
    /// Whether the line is a header.
    pub in_header: bool,
    /// Whether the pass stands in a key: before its `=`.
    pub in_key: bool,
    /// The greatest depth met.
    pub deepest: nat,
}

/// The state before the first character.
pub open spec fn scan_start() -> Scan {
    Scan {
        lex: Lex::Plain,
        basic: false,
        frames: Seq::empty(),
        base: 0,
        dots: 0,
        header: 0,
        in_header: false,
        in_key: true,
        deepest: 0,
    }
}

/// The depth where the pass stands: in a header, that of the header;
/// else that of what is open around it, with the dots of the key at
/// hand.
pub open spec fn depth_here(s: Scan) -> nat {
    if s.in_header {
        s.header
    } else {
        s.base + s.dots
    }
}

/// The state with the depth where it stands taken into account.
pub open spec fn noted(s: Scan) -> Scan {
    if depth_here(s) > s.deepest {
        Scan { deepest: depth_here(s), ..s }
    } else {
        s
    }
}

/// The state with one more array or inline table open.
pub open spec fn opened(s: Scan, table: bool) -> Scan {
    noted(
        Scan {
            frames: s.frames.push(Frame { base: s.base, table }),
            base: s.base + s.dots + 1,
            dots: 0,
            in_key: table,
            ..s
        },
    )
}

/// The state with the innermost array or inline table closed.
pub open spec fn closed(s: Scan) -> Scan {
    if s.frames.len() > 0 {
        Scan {
            frames: s.frames.drop_last(),
            base: s.frames.last().base,
            dots: 0,
            in_key: false,
            ..s
        }
    } else {
        s
    }
}

/// The state after the character `c`, met outside comments and quoted
/// text.
pub open spec fn plain_step(s: Scan, c: char) -> Scan {
    let s = Scan { lex: Lex::Plain, ..s };
    if c == '"' {
        Scan { lex: Lex::Opened1, basic: true, ..s }
    } else if c == '\'' {
        Scan { lex: Lex::Opened1, basic: false, ..s }
    } else if c == '#' {
        Scan { lex: Lex::Comment, ..s }
    } else if c == '\n' {
        if s.frames.len() == 0 {
            Scan { base: s.header, dots: 0, in_header: false, in_key: true, ..s }
        } else {
            s
        }
    } else if s.in_header {
        if c == '.' || c == '[' {
            noted(Scan { header: s.header + 1, ..s })
        } else {
            s
        }
    } else if c == '=' {
        Scan { in_key: false, ..s }
    } else if c == '.' {
        if s.in_key {
            noted(Scan { dots: s.dots + 1, ..s })
        } else {
            s
        }
    } else if c == ',' {
        if s.frames.len() > 0 && s.frames.last().table {
            Scan { dots: 0, in_key: true, ..s }
        } else {
            s
        }
    } else if c == '[' {
        if s.in_key && s.frames.len() == 0 {
            noted(Scan { header: 1, in_header: true, ..s })
        } else {
            opened(s, false)
        }
    } else if c == '{' {
        opened(s, true)
    } else if c == ']' || c == '}' {
        closed(s)
    } else {
        s
    }
}

/// The state after the character `c`.
pub open spec fn scan_step(s: Scan, c: char) -> Scan {
    let quote = c == (if s.basic {
        '"'
    } else {
        '\''
    });
    let escape = s.basic && c == '\\';
    match s.lex {
        Lex::Plain => plain_step(s, c),
        Lex::Comment => if c == '\n' {
            plain_step(s, c)
        } else {
            s
        },
        Lex::Opened1 => if quote {
            Scan { lex: Lex::Opened2, ..s }
        } else if c == '\n' {
            plain_step(s, c)
        } else if escape {
            Scan { lex: Lex::ShortEscaped, ..s }
        } else {
            Scan { lex: Lex::Short, ..s }
        },
        Lex::Opened2 => if quote {
            Scan { lex: Lex::Long, ..s }
        } else {
            plain_step(s, c)
        },
        Lex::Short => if quote {
            Scan { lex: Lex::Plain, ..s }
        } else if c == '\n' {
            plain_step(s, c)
        } else if escape {
            Scan { lex: Lex::ShortEscaped, ..s }
        } else {
            s
        },
        Lex::ShortEscaped => Scan { lex: Lex::Short, ..s },
        Lex::Long => if quote {
            Scan { lex: Lex::LongQuote1, ..s }
        } else if escape {
            Scan { lex: Lex::LongEscaped, ..s }
        } else {
            s
        },
        Lex::LongEscaped => Scan { lex: Lex::Long, ..s },
        Lex::LongQuote1 => if quote {
            Scan { lex: Lex::LongQuote2, ..s }
        } else if escape {
            Scan { lex: Lex::LongEscaped, ..s }
        } else {
            Scan { lex: Lex::Long, ..s }
        },
        Lex::LongQuote2 => if quote {
            Scan { lex: Lex::Closed3, ..s }
        } else if escape {
            Scan { lex: Lex::LongEscaped, ..s }
        } else {
            Scan { lex: Lex::Long, ..s }
        },
        Lex::Closed3 => if quote {
            Scan { lex: Lex::Closed4, ..s }
        } else {
            plain_step(s, c)
        },
        Lex::Closed4 => if quote {
            Scan { lex: Lex::Plain, ..s }
        } else {
            plain_step(s, c)
        },
    }
}

/// The state after all of `text`.
pub open spec fn scanned(text: Seq<char>) -> Scan
    decreases text.len(),
{
    if text.len() == 0 {
        scan_start()
    } else {
        scan_step(scanned(text.drop_last()), text.last())
    }
}

/// How deep `text` nests: the greatest depth that the pass meets.
pub open spec fn nesting(text: Seq<char>) -> nat {
    scanned(text).deepest
}

/// Whether no count of `s` exceeds `n`.
pub open spec fn counts_within(s: Scan, n: int) -> bool {
    &&& s.base + s.dots <= n
    &&& s.header <= n
    &&& s.deepest <= n
    &&& forall|i: int| 0 <= i < s.frames.len() ==> (#[trigger] s.frames[i]).base <= n
}

/// Whether `c` is one of the characters by which a text nests.
pub open spec fn nests(c: char) -> bool {
    c == '[' || c == '{' || c == '.'
}

/// The number of `[`, `{` and `.` in `text`.
pub open spec fn nesting_marks(text: Seq<char>) -> nat
    decreases text.len(),
{
    if text.len() == 0 {
        0
    } else {
        nesting_marks(text.drop_last()) + if nests(text.last()) {
            1nat
        } else {
            0nat
        }
    }
}

/// A `[`, `{` or `.` raises each count by one at most, and no other
/// character raises any.
pub proof fn lemma_step_counts(s: Scan, c: char, n: int)
    requires
        counts_within(s, n),
        0 <= n,
    ensures
        counts_within(
            scan_step(s, c),
            if nests(c) {
                n + 1
            } else {
                n
            },
        ),
{
    let t = scan_step(s, c);
    assert forall|i: int| 0 <= i < t.frames.len() implies (#[trigger] t.frames[i]).base <= n
        + 1 by {
        if i < s.frames.len() {
            assert(t.frames[i] == s.frames[i]);
        }
    }
    if !nests(c) {
        assert forall|i: int| 0 <= i < t.frames.len() implies (#[trigger] t.frames[i]).base
            <= n by {
            assert(t.frames[i] == s.frames[i]);
        }
    }
}

/// A text nests no deeper than it holds `[`, `{` and `.`: one that holds
/// none of them does not nest at all.
pub proof fn lemma_nesting_within_marks(text: Seq<char>)
    ensures
        counts_within(scanned(text), nesting_marks(text) as int),
        nesting(text) <= nesting_marks(text),
    decreases text.len(),
{
    if text.len() > 0 {
        lemma_nesting_within_marks(text.drop_last());
        lemma_step_counts(
            scanned(text.drop_last()),
            text.last(),
            nesting_marks(text.drop_last()) as int,
        );
    }
}

/// An array or inline table that is open, as it is kept.
#[derive(Debug, Clone, Copy)]
struct Level {
    base: usize,
    table: bool,
}

impl View for Level {
    type V = Frame;

    closed spec fn view(&self) -> Frame {
        Frame { base: self.base as nat, table: self.table }
    }
}

/// The state of the pass, as it is computed.
struct Scanner {
    lex: Lex,
    basic: bool,
    frames: Vec<Level>,
    base: usize,
    dots: usize,
    header: usize,
    in_header: bool,
    in_key: bool,
    deepest: usize,
}

impl View for Scanner {
    type V = Scan;

    closed spec fn view(&self) -> Scan {
        Scan {
            lex: self.lex,
            basic: self.basic,
            frames: seq_view(self.frames@),
            base: self.base as nat,
            dots: self.dots as nat,
            header: self.header as nat,
            in_header: self.in_header,
            in_key: self.in_key,
            deepest: self.deepest as nat,
        }
    }
}

impl Scanner {
    /// The state before the first character.
    fn new() -> (r: Scanner)
        ensures
            r@ == scan_start(),
    {
        let frames: Vec<Level> = Vec::new();
        proof {
            assert(seq_view(frames@) =~= Seq::<Frame>::empty());
        }
        Scanner {
            lex: Lex::Plain,
            basic: false,
            frames,
            base: 0,
            dots: 0,
            header: 0,
            in_header: false,
            in_key: true,
            deepest: 0,
        }
    }

    /// The state with another place in the text.
    fn at(self, lex: Lex) -> (r: Scanner)
        ensures
            r@ == (Scan { lex, ..self@ }),
    {
        Scanner { lex, ..self }
    }

    /// The state with the depth where it stands taken into account.
    fn note(self) -> (r: Scanner)
        requires
            self.base + self.dots <= usize::MAX,
        ensures
            r@ == noted(self@),
    {
        let here: usize = if self.in_header {
            self.header
        } else {
            self.base + self.dots
        };
        if here > self.deepest {
            Scanner { deepest: here, ..self }
        } else {
            self
        }
    }

    /// The state with one more array or inline table open.
    fn open(self, table: bool) -> (r: Scanner)
        requires
            self.base + self.dots < usize::MAX,
        ensures
            r@ == opened(self@, table),
    {
        let ghost before = self.frames@;
        let mut frames = self.frames;
        let level = Level { base: self.base, table };
        frames.push(level);
        proof {
            assert(seq_view(frames@) =~= seq_view(before).push(level@));
        }
        (Scanner {
            lex: self.lex,
            basic: self.basic,
            frames,
            base: self.base + self.dots + 1,
            dots: 0,
            header: self.header,
            in_header: self.in_header,
            in_key: table,
            deepest: self.deepest,
        }).note()
    }

    /// The state with the innermost array or inline table closed.
    fn close(self) -> (r: Scanner)
        ensures
            r@ == closed(self@),
    {
        let ghost before = self.frames@;
        let mut frames = self.frames;
        match frames.pop() {
            Some(level) => {
                proof {
                    assert(seq_view(frames@) =~= seq_view(before).drop_last());
                    assert(seq_view(before).last() == level@);
                }
                Scanner {
                    lex: self.lex,
                    basic: self.basic,
                    frames,
                    base: level.base,
                    dots: 0,
                    header: self.header,
                    in_header: self.in_header,
                    in_key: false,
                    deepest: self.deepest,
                }
            },
            None => {
                proof {
                    assert(frames@ =~= before);
                }
                Scanner {
                    lex: self.lex,
                    basic: self.basic,
                    frames,
                    base: self.base,
                    dots: self.dots,
                    header: self.header,
                    in_header: self.in_header,
                    in_key: self.in_key,
                    deepest: self.deepest,
                }
            },
        }
    }

    /// Whether the innermost of what is open is an inline table.
    fn in_table(&self) -> (r: bool)
        ensures
            r == (self@.frames.len() > 0 && self@.frames.last().table),
    {
        let n = self.frames.len();
        n > 0 && self.frames[n - 1].table
    }

    /// The state after the character `c`, met outside comments and
    /// quoted text.
    fn plain(self, c: char) -> (r: Scanner)
        requires
            self.base + self.dots < usize::MAX,
            self.header < usize::MAX,
        ensures
            r@ == plain_step(self@, c),
    {
        let s = self.at(Lex::Plain);
        if c == '"' {
            Scanner { lex: Lex::Opened1, basic: true, ..s }
        } else if c == '\'' {
            Scanner { lex: Lex::Opened1, basic: false, ..s }
        } else if c == '#' {
            s.at(Lex::Comment)
        } else if c == '\n' {
            if s.frames.len() == 0 {
                Scanner { base: s.header, dots: 0, in_header: false, in_key: true, ..s }
            } else {
                s
            }
        } else if s.in_header {
            if c == '.' || c == '[' {
                (Scanner { header: s.header + 1, ..s }).note()
            } else {
                s
            }
        } else if c == '=' {
            Scanner { in_key: false, ..s }
        } else if c == '.' {
            if s.in_key {
                (Scanner { dots: s.dots + 1, ..s }).note()
            } else {
                s
            }
        } else if c == ',' {
            if s.in_table() {
                Scanner { dots: 0, in_key: true, ..s }
            } else {
                s
            }
        } else if c == '[' {
            if s.in_key && s.frames.len() == 0 {
                (Scanner { header: 1, in_header: true, ..s }).note()
            } else {
                s.open(false)
            }
        } else if c == '{' {
            s.open(true)
        } else if c == ']' || c == '}' {
            s.close()
        } else {
            s
        }
    }

    /// The state after the character `c`.
    fn step(self, c: char) -> (r: Scanner)
        requires
            self.base + self.dots < usize::MAX,
            self.header < usize::MAX,
        ensures
            r@ == scan_step(self@, c),
    {
        let quote = if self.basic {
            c == '"'
        } else {
            c == '\''
        };
        let escape = self.basic && c == '\\';
        match self.lex {
            Lex::Plain => self.plain(c),
            Lex::Comment => if c == '\n' {
                self.plain(c)
            } else {
                self
            },
            Lex::Opened1 => if quote {
                self.at(Lex::Opened2)
            } else if c == '\n' {
                self.plain(c)
            } else if escape {
                self.at(Lex::ShortEscaped)
            } else {
                self.at(Lex::Short)
            },
            Lex::Opened2 => if quote {
                self.at(Lex::Long)
            } else {
                self.plain(c)
            },
            Lex::Short => if quote {
                self.at(Lex::Plain)
            } else if c == '\n' {
                self.plain(c)
            } else if escape {
                self.at(Lex::ShortEscaped)
            } else {
                self
            },
            Lex::ShortEscaped => self.at(Lex::Short),
            Lex::Long => if quote {
                self.at(Lex::LongQuote1)
            } else if escape {
                self.at(Lex::LongEscaped)
            } else {
                self
            },
            Lex::LongEscaped => self.at(Lex::Long),
            Lex::LongQuote1 => if quote {
                self.at(Lex::LongQuote2)
            } else if escape {
                self.at(Lex::LongEscaped)
            } else {
                self.at(Lex::Long)
            },
            Lex::LongQuote2 => if quote {
                self.at(Lex::Closed3)
            } else if escape {
                self.at(Lex::LongEscaped)
            } else {
                self.at(Lex::Long)
            },
            Lex::Closed3 => if quote {
                self.at(Lex::Closed4)
            } else {
                self.plain(c)
            },
            Lex::Closed4 => if quote {
                self.at(Lex::Plain)
            } else {
                self.plain(c)
            },
        }
    }
}

/// How deep `text` nests.
pub fn measure_nesting(text: &str) -> (n: usize)
    ensures
        n == nesting(text@),
{
    let chars = to_chars(text);
    let mut s = Scanner::new();
    let mut i: usize = 0;
    proof {
        assert(chars@.take(0) =~= Seq::<char>::empty());
    }
    while i < chars.len()
        invariant
            i <= chars.len(),
            s@ == scanned(chars@.take(i as int)),
            counts_within(s@, i as int),
        decreases chars.len() - i,
    {
        proof {
            assert(chars@.take(i + 1).drop_last() =~= chars@.take(i as int));
            lemma_step_counts(s@, chars@[i as int], i as int);
        }
        s = s.step(chars[i]);
        i += 1;
    }
    proof {
        assert(chars@.take(i as int) =~= chars@);
    }
    s.deepest
}

} // verus!
