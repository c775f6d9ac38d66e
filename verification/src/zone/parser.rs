use vstd::prelude::*;

use super::lexer::{is_blank, line_words, split_words, texts};
use crate::addr::{ipv4_from_text, ipv6_from_text};
use crate::errors::{protocol_error_text, ProtocolError};
use crate::text::{digits_value, is_digits, lowercase, str_equals, uppercase};
use crate::types::dns::name::{add_labels_spec, name_from_text, Name};
use crate::types::rr::classes::{class_from_word, Class};
use crate::types::rr::rdata::{rdata_wire, RData, RDataView};
use crate::types::rr::record::{Record, RecordView};
use crate::types::rr::rheader::{RHeader, RHeaderView};
use crate::types::rr::types::{type_from_word, type_text, Type};

verus! {

/// What reading a zone has gathered so far: the origin for relative names,
/// the owner and TTL of the last record, and the records.
pub struct ZoneReadState {
    pub origin: Option<Seq<Seq<u8>>>,
    pub owner: Option<Seq<Seq<u8>>>,
    pub ttl: u32,
    pub records: Seq<RecordView>,
}

/// Nothing read yet: no origin, no owner, TTL 0 and no records.
pub open spec fn initial_read_state() -> ZoneReadState {
    ZoneReadState { origin: None, owner: None, ttl: 0, records: Seq::empty() }
}

/// Whether a line starts with a blank, so that its record has the owner of
/// the record before.
pub open spec fn is_indented(line: Seq<char>) -> bool {
    line.len() > 0 && is_blank(line[0])
}

/// The number a word of digits stands for, when it fits in a `u32`.
pub open spec fn number_of(w: Seq<char>) -> Option<u32> {
    if is_digits(w) && digits_value(w) <= u32::MAX {
        Some(digits_value(w) as u32)
    } else {
        None
    }
}

/// The owner name that a word names: `@` is the origin; a name that does
/// not end with a dot is relative to the origin, if there is one.
pub open spec fn owner_of(origin: Option<Seq<Seq<u8>>>, w: Seq<char>) -> Result<
    Seq<Seq<u8>>,
    Seq<char>,
> {
    if w == "@"@ {
        match origin {
            Some(o) => Ok(o),
            None => Err("No origin for @"@),
        }
    } else {
        match name_from_text(lowercase(w)) {
            Err(e) => Err(protocol_error_text(e)),
            Ok(ls) => if w.len() > 0 && w.last() == '.' {
                Ok(ls)
            } else {
                match origin {
                    None => Ok(ls),
                    Some(o) => match add_labels_spec(ls, o) {
                        Ok(x) => Ok(x),
                        Err(e) => Err(protocol_error_text(e)),
                    },
                }
            },
        }
    }
}

/// The message of an error in the record data of a type.
pub open spec fn rdata_error_text(ty: Type, m: Seq<char>) -> Seq<char> {
    "Error while parsing "@ + type_text(ty) + " record data: "@ + m
}

/// The record data that a word gives for a type: an address for A and
/// AAAA, a name for NS and CNAME; other types are not read from text.
pub open spec fn rdata_of(ty: Type, w: Seq<char>) -> Result<RDataView, Seq<char>> {
    match ty {
        Type::A => match ipv4_from_text(w) {
            Ok(a) => Ok(RDataView::A(a)),
            Err(t) => Err(rdata_error_text(ty, t)),
        },
        Type::AAAA => match ipv6_from_text(w) {
            Ok(a) => Ok(RDataView::AAAA(a)),
            Err(t) => Err(rdata_error_text(ty, t)),
        },
        Type::NS => match name_from_text(lowercase(w)) {
            Ok(ls) => Ok(RDataView::NS(ls)),
            Err(e) => Err(rdata_error_text(ty, protocol_error_text(e))),
        },
        Type::CNAME => match name_from_text(lowercase(w)) {
            Ok(ls) => Ok(RDataView::CNAME(ls)),
            Err(e) => Err(rdata_error_text(ty, protocol_error_text(e))),
        },
        _ => Err("Unsupported record type "@ + type_text(ty)),
    }
}

/// The fields of a record line after its owner, from word `k0` on: an
/// optional TTL, an optional class (IN when there is none), the TTL if it
/// was not given before the class, the type and the data. A record without
/// a TTL has the TTL of the record before.
pub open spec fn fields_of(
    st: ZoneReadState,
    owner: Seq<Seq<u8>>,
    ws: Seq<Seq<char>>,
    k0: int,
) -> Result<ZoneReadState, Seq<char>> {
    let t1 = if k0 < ws.len() {
        number_of(ws[k0])
    } else {
        None
    };
    let k1 = if t1 is Some {
        k0 + 1
    } else {
        k0
    };
    let c = if k1 < ws.len() {
        class_from_word(uppercase(ws[k1]))
    } else {
        Err(ProtocolError::ClassParseError)
    };
    let k2 = if c is Ok {
        k1 + 1
    } else {
        k1
    };
    let class = match c {
        Ok(x) => x,
        Err(_) => Class::IN,
    };
    let t2 = if t1 is None && k2 < ws.len() {
        number_of(ws[k2])
    } else {
        None
    };
    let k3 = if t2 is Some {
        k2 + 1
    } else {
        k2
    };
    let ttl = match t1 {
        Some(t) => t,
        None => match t2 {
            Some(t) => t,
            None => st.ttl,
        },
    };
    if k3 >= ws.len() {
        Err("Missing record type"@)
    } else {
        match type_from_word(uppercase(ws[k3])) {
            Err(e) => Err(protocol_error_text(e)),
            Ok(ty) => if k3 + 1 >= ws.len() {
                Err("Missing record data"@)
            } else {
                match rdata_of(ty, ws[k3 + 1]) {
                    Err(m) => Err(m),
                    Ok(d) => Ok(
                        ZoneReadState {
                            owner: Some(owner),
                            ttl,
                            records: st.records.push(
                                RecordView {
                                    header: RHeaderView {
                                        name: owner,
                                        ty,
                                        class,
                                        ttl,
                                        rdlen: rdata_wire(d).len() as u16,
                                    },
                                    data: d,
                                },
                            ),
                            ..st
                        },
                    ),
                }
            },
        }
    }
}

/// Reading a record line with words `ws`: the owner is the first word, or
/// the owner of the record before when the line is indented.
pub open spec fn record_of(st: ZoneReadState, line: Seq<char>, ws: Seq<Seq<char>>) -> Result<
    ZoneReadState,
    Seq<char>,
> {
    if is_indented(line) {
        match st.owner {
            Some(o) => fields_of(st, o, ws, 0),
            None => Err("Record without owner"@),
        }
    } else {
        match owner_of(st.origin, ws[0]) {
            Ok(o) => fields_of(st, o, ws, 1),
            Err(m) => Err(m),
        }
    }
}

/// Reading one line of a zone file: lines without words are skipped, an
/// `$ORIGIN` entry sets the origin, and every other line is a record.
pub open spec fn line_step(st: ZoneReadState, line: Seq<char>) -> Result<ZoneReadState, Seq<char>> {
    let ws = line_words(line);
    if ws.len() == 0 {
        Ok(st)
    } else if !is_indented(line) && ws[0] == "$ORIGIN"@ {
        if ws.len() < 2 {
            Err("Missing origin name"@)
        } else {
            match name_from_text(lowercase(ws[1])) {
                Ok(o) => Ok(ZoneReadState { origin: Some(o), ..st }),
                Err(e) => Err(protocol_error_text(e)),
            }
        }
    } else {
        record_of(st, line, ws)
    }
}

/// What reading a zone has gathered so far (see [`ZoneReadState`]).
pub struct ReadState {
    pub origin: Option<Name>,
    pub owner: Option<Name>,
    pub ttl: u32,
    pub records: Vec<Record>,
}

/// The name in an optional name.
pub open spec fn name_view(n: Option<Name>) -> Option<Seq<Seq<u8>>> {
    match n {
        Some(x) => Some(x@),
        None => None,
    }
}

impl View for ReadState {
    type V = ZoneReadState;

    open spec fn view(&self) -> ZoneReadState {
        ZoneReadState {
            origin: name_view(self.origin),
            owner: name_view(self.owner),
            ttl: self.ttl,
            records: self.records@.map_values(|r: Record| r@),
        }
    }
}

/// The number a word of digits stands for (see [`number_of`]).
fn parse_number(w: &str) -> (r: Option<u32>)
    ensures
        r == number_of(w@),
{
    let n = w.unicode_len();
    if n == 0 {
        return None;
    }
    let mut v: u64 = 0;
    let mut i: usize = 0;
    while i < n
        invariant
            n == w@.len(),
            n > 0,
            i <= n,
            v == digits_value(w@.take(i as int)),
            v <= u32::MAX,
            forall|j: int| 0 <= j < i ==> '0' <= #[trigger] w@[j] && w@[j] <= '9',
        decreases n - i,
    {
        let c = w.get_char(i);
        assert(w@.take(i + 1).drop_last() =~= w@.take(i as int));
        assert(w@.take(i + 1).last() == c);
        if !('0' <= c && c <= '9') {
            return None;
        }
        let d = (c as u32 - 48) as u64;
        v = v * 10 + d;
        if v > u32::MAX as u64 {
            proof {
                lemma_digits_value_grows(w@, i + 1);
            }
            return None;
        }
        i = i + 1;
    }
    assert(w@.take(i as int) =~= w@);
    Some(v as u32)
}

/// A longer run of digits has no smaller value.
proof fn lemma_digits_value_grows(w: Seq<char>, k: int)
    requires
        0 <= k <= w.len(),
    ensures
        digits_value(w.take(k)) <= digits_value(w),
    decreases w.len() - k,
{
    if k < w.len() {
        lemma_digits_value_grows(w, k + 1);
        assert(w.take(k + 1).drop_last() =~= w.take(k));
    } else {
        assert(w.take(k) =~= w);
    }
}

/// The owner name that a word names (see [`owner_of`]).
fn owner_from(origin: &Option<Name>, w: &str) -> (r: Result<Name, String>)
    ensures
        match owner_of(name_view(*origin), w@) {
            Ok(ls) => r matches Ok(n) && n@ == ls,
            Err(m) => r matches Err(t) && t@ == m,
        },
{
    if str_equals(w, "@") {
        return match origin {
            Some(o) => Ok(o.clone()),
            None => Err(String::from_str("No origin for @")),
        };
    }
    let mut name = match Name::try_from(w) {
        Ok(n) => n,
        Err(e) => return Err(e.to_string()),
    };
    let n = w.unicode_len();
    if n > 0 && w.get_char(n - 1) == '.' {
        return Ok(name);
    }
    match origin {
        None => Ok(name),
        Some(o) => match name.append_name(o) {
            Ok(()) => Ok(name),
            Err(e) => Err(e.to_string()),
        },
    }
}

/// The record data that a word gives for a type (see [`rdata_of`]).
fn rdata_from(ty: Type, w: &str) -> (r: Result<RData, String>)
    ensures
        match rdata_of(ty, w@) {
            Ok(d) => r matches Ok(x) && x@ == d,
            Err(m) => r matches Err(t) && t@ == m,
        },
{
    match ty {
        Type::A | Type::AAAA | Type::NS | Type::CNAME => match RData::try_from_str(ty, w) {
            Ok(d) => Ok(d),
            Err(e) => Err(e.to_string()),
        },
        _ => {
            let mut s = String::from_str("Unsupported record type ");
            let t = ty.to_string();
            s.append(t.as_str());
            Err(s)
        },
    }
}

/// Reads the fields of a record line after its owner, from word `k0` on
/// (see [`fields_of`]).
fn read_fields(st: &mut ReadState, owner: Name, ws: &Vec<String>, k0: usize) -> (r: Result<
    (),
    String,
>)
    requires
        k0 <= 1,
    ensures
        match fields_of(old(st)@, owner@, texts(ws@), k0 as int) {
            Ok(n) => r is Ok && final(st)@ == n,
            Err(m) => r matches Err(t) && t@ == m && final(st)@ == old(st)@,
        },
{
    let ghost wv = texts(ws@);
    assert(wv.len() == ws@.len());
    let n = ws.len();
    let mut k = k0;
    let mut t1: Option<u32> = None;
    if k < n {
        assert(wv[k as int] == ws@[k as int]@);
        t1 = parse_number(ws[k].as_str());
    }
    if t1.is_some() {
        k = k + 1;
    }
    let mut class = Class::IN;
    if k < n {
        assert(wv[k as int] == ws@[k as int]@);
        match Class::try_from(ws[k].as_str()) {
            Ok(c) => {
                class = c;
                k = k + 1;
            },
            Err(_) => {},
        }
    }
    let mut t2: Option<u32> = None;
    if t1.is_none() && k < n {
        assert(wv[k as int] == ws@[k as int]@);
        t2 = parse_number(ws[k].as_str());
    }
    if t2.is_some() {
        k = k + 1;
    }
    let ttl = match t1 {
        Some(t) => t,
        None => match t2 {
            Some(t) => t,
            None => st.ttl,
        },
    };
    if k >= n {
        return Err(String::from_str("Missing record type"));
    }
    assert(wv[k as int] == ws@[k as int]@);
    let ty = match Type::try_from(ws[k].as_str()) {
        Ok(t) => t,
        Err(e) => return Err(e.to_string()),
    };
    if k + 1 >= n {
        return Err(String::from_str("Missing record data"));
    }
    assert(wv[k + 1] == ws@[k + 1]@);
    let data = rdata_from(ty, ws[k + 1].as_str())?;
    let rdlen = data.len();
    let mut header = RHeader::new();
    header.set_name(owner.clone());
    header.set_ty(ty);
    header.set_class(class);
    header.set_ttl(ttl);
    header.set_rdlen(rdlen as u16);
    let mut record = Record::new_with_header(header);
    record.set_rdata(data);
    let ghost before = st.records@;
    st.records.push(record);
    st.owner = Some(owner);
    st.ttl = ttl;
    proof {
        assert(st.records@.map_values(|r: Record| r@) =~= before.map_values(|r: Record| r@).push(
            record@,
        ));
    }
    Ok(())
}

/// Reads one line of a zone file (see [`line_step`]).
pub fn read_line(st: &mut ReadState, line: &str) -> (r: Result<(), String>)
    ensures
        match line_step(old(st)@, line@) {
            Ok(n) => r is Ok && final(st)@ == n,
            Err(m) => r matches Err(t) && t@ == m,
        },
{
    let ws = split_words(line);
    let ghost wv = texts(ws@);
    assert(wv.len() == ws@.len());
    if ws.len() == 0 {
        return Ok(());
    }
    assert(wv[0] == ws@[0]@);
    let n = line.unicode_len();
    let indented = n > 0 && {
        let c = line.get_char(0);
        c == ' ' || c == '\t' || c == '\r'
    };
    if !indented && str_equals(ws[0].as_str(), "$ORIGIN") {
        if ws.len() < 2 {
            return Err(String::from_str("Missing origin name"));
        }
        assert(wv[1] == ws@[1]@);
        return match Name::try_from(ws[1].as_str()) {
            Ok(o) => {
                st.origin = Some(o);
                Ok(())
            },
            Err(e) => Err(e.to_string()),
        };
    }
    if indented {
        let owner = match &st.owner {
            Some(o) => o.clone(),
            None => return Err(String::from_str("Record without owner")),
        };
        read_fields(st, owner, &ws, 0)
    } else {
        let owner = owner_from(&st.origin, ws[0].as_str())?;
        read_fields(st, owner, &ws, 1)
    }
}

} // verus!
