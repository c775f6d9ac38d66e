use vstd::prelude::*;

use crate::text::push_char;
use crate::types::rr::record::{Record, RecordView};

pub mod error;
pub mod lexer;
pub mod parser;

pub use error::ZoneError;

use parser::{initial_read_state, line_step, read_line, ReadState, ZoneReadState};

verus! {

/// The control entry that sets the origin for relative domain names.
pub const ZONE_CONTROL_ENTRY_ORIGIN: &'static str = "$ORIGIN";

/// The length of [`ZONE_CONTROL_ENTRY_ORIGIN`].
pub const ZONE_CONTROL_ENTRY_ORIGIN_LEN: usize = 7;

/// The control entry that inserts another file.
pub const ZONE_CONTROL_ENTRY_INCLUDE: &'static str = "$INCLUDE";

/// The length of [`ZONE_CONTROL_ENTRY_INCLUDE`].
pub const ZONE_CONTROL_ENTRY_INCLUDE_LEN: usize = 8;

/// The state of reading a zone file, line by line.
pub enum ZoneParseState<'a> {
    NewLine,
    Entry(&'a str),
    Origin(&'a str),
    Include(&'a str),
    Record(&'a str),
}

impl<'a> Default for ZoneParseState<'a> {
    fn default() -> (r: Self)
        ensures
            r is NewLine,
    {
        Self::NewLine
    }
}

/// A zone: the records of a zone file.
pub struct Zone {
    records: Vec<Record>,
}

impl View for Zone {
    type V = Seq<RecordView>;

    closed spec fn view(&self) -> Seq<RecordView> {
        self.records@.map_values(|r: Record| r@)
    }
}

/// Splitting text at every newline: `n` newlines give `n + 1` lines.
pub open spec fn split_lines(s: Seq<char>) -> Seq<Seq<char>>
    decreases s.len(),
{
    if s.len() == 0 {
        seq![Seq::<char>::empty()]
    } else {
        let parts = split_lines(s.drop_last());
        if s.last() == '\n' {
            parts.push(Seq::empty())
        } else {
            parts.update(parts.len() - 1, parts.last().push(s.last()))
        }
    }
}

/// Reading the lines in order, from the state `st`; the first error ends
/// it.
pub open spec fn read_lines(st: ZoneReadState, lines: Seq<Seq<char>>) -> Result<
    ZoneReadState,
    Seq<char>,
>
    decreases lines.len(),
{
    if lines.len() == 0 {
        Ok(st)
    } else {
        match read_lines(st, lines.drop_last()) {
            Err(m) => Err(m),
            Ok(x) => line_step(x, lines.last()),
        }
    }
}

/// Reading a zone from its text, line by line.
pub open spec fn zone_from_text(s: Seq<char>) -> Result<ZoneReadState, Seq<char>> {
    read_lines(initial_read_state(), split_lines(s))
}

/// Whether a line of the text starts with the `$INCLUDE` control entry.
pub open spec fn has_include_entry(s: Seq<char>) -> bool {
    exists|i: int|
        0 <= i < split_lines(s).len() && 8 <= (#[trigger] split_lines(s)[i]).len()
            && split_lines(s)[i].subrange(0, 8) == "$INCLUDE"@
}

proof fn lemma_split_lines_nonempty(s: Seq<char>)
    ensures
        split_lines(s).len() >= 1,
    decreases s.len(),
{
    if s.len() > 0 {
        lemma_split_lines_nonempty(s.drop_last());
    }
}

/// Once the lines finished before position `i` fail to read, the whole text
/// fails with the same error.
proof fn lemma_read_lines_err(s: Seq<char>, i: int, m: Seq<char>)
    requires
        0 <= i <= s.len(),
        read_lines(initial_read_state(), split_lines(s.take(i)).drop_last()) == Err::<
            ZoneReadState,
            Seq<char>,
        >(m),
    ensures
        zone_from_text(s) == Err::<ZoneReadState, Seq<char>>(m),
    decreases s.len() - i,
{
    lemma_split_lines_nonempty(s.take(i));
    if i == s.len() {
        assert(s.take(i) =~= s);
        let parts = split_lines(s);
        assert(parts.drop_last().push(parts.last()) =~= parts);
    } else {
        let old_parts = split_lines(s.take(i));
        let new_parts = split_lines(s.take(i + 1));
        assert(s.take(i + 1).drop_last() =~= s.take(i));
        assert(s.take(i + 1).last() == s[i]);
        if s[i] == '\n' {
            assert(new_parts.drop_last() =~= old_parts);
            assert(old_parts.drop_last().push(old_parts.last()) =~= old_parts);
        } else {
            assert(new_parts.drop_last() =~= old_parts.drop_last());
        }
        lemma_read_lines_err(s, i + 1, m);
    }
}

impl Zone {
    /// Reads a zone from the text of a zone file, line by line (see
    /// [`line_step`]): lines without words (empty lines and comments after
    /// `;`) are skipped, `$ORIGIN` entries set the origin for relative
    /// names, and every other line is a resource record of type A, AAAA, NS
    /// or CNAME. The first line that cannot be read ends it with a parse
    /// error. `$INCLUDE` entries are not handled.
    pub fn from_str(s: &str) -> (r: Result<Zone, ZoneError>)
        requires
            !has_include_entry(s@),
        ensures
            match zone_from_text(s@) {
                Ok(st) => r matches Ok(z) && z@ == st.records,
                Err(m) => r matches Err(ZoneError::ParseError(t)) && t@ == m,
            },
    {
        let ghost text = s@;
        let n = s.unicode_len();
        let mut st = ReadState { origin: None, owner: None, ttl: 0, records: Vec::new() };
        let mut line = String::new();
        let mut i: usize = 0;
        assert(text.take(0) =~= Seq::<char>::empty());
        assert(st@ == initial_read_state()) by {
            assert(st.records@.map_values(|r: Record| r@) =~= Seq::<RecordView>::empty());
        }
        assert(split_lines(text.take(0)).drop_last() =~= Seq::<Seq<char>>::empty());
        while i < n
            invariant
                n == text.len(),
                text == s@,
                i <= n,
                split_lines(text.take(i as int)).last() == line@,
                split_lines(text.take(i as int)).len() >= 1,
                read_lines(initial_read_state(), split_lines(text.take(i as int)).drop_last())
                    == Ok::<ZoneReadState, Seq<char>>(st@),
            decreases n - i,
        {
            let ghost parts = split_lines(text.take(i as int));
            let c = s.get_char(i);
            assert(text.take(i + 1).drop_last() =~= text.take(i as int));
            assert(text.take(i + 1).last() == c);
            if c == '\n' {
                assert(split_lines(text.take(i + 1)).drop_last() =~= parts);
                assert(parts.drop_last().push(parts.last()) =~= parts);
                match read_line(&mut st, line.as_str()) {
                    Ok(()) => {},
                    Err(m) => {
                        proof {
                            lemma_read_lines_err(text, i + 1, m@);
                        }
                        return Err(ZoneError::ParseError(m));
                    },
                }
                line = String::new();
                assert(split_lines(text.take(i + 1)).last() =~= line@);
            } else {
                push_char(&mut line, c);
                assert(split_lines(text.take(i + 1)).drop_last() =~= parts.drop_last());
                assert(split_lines(text.take(i + 1)).last() =~= line@);
            }
            i = i + 1;
        }
        proof {
            assert(text.take(i as int) =~= text);
            let parts = split_lines(text);
            assert(parts.drop_last().push(parts.last()) =~= parts);
        }
        match read_line(&mut st, line.as_str()) {
            Ok(()) => {},
            Err(m) => return Err(ZoneError::ParseError(m)),
        }
        Ok(Zone { records: st.records })
    }

    /// The records of the zone, in the order of the file.
    pub fn records(&self) -> (r: &Vec<Record>)
        ensures
            r@.map_values(|x: Record| x@) == self@,
    {
        &self.records
    }
}

} // verus!
