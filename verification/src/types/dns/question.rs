use vstd::prelude::*;

use crate::constants::QUESTION_FIXED_LENGTH;
use crate::errors::{BufferError, ProtocolError};
use crate::packing::{u16_wire, PackBuffer, UnpackBuffer};
use crate::types::dns::name::{
    lemma_name_wire_len, lemma_pack_unpack, name_roundtrips, name_wire, read_name, wire_len,
    Name,
};
use crate::types::dns::query::Query;
use crate::types::rr::classes::{
    class_code, is_known_class_code, lemma_class_roundtrip, read_class_at, Class,
};
use crate::types::rr::types::{
    is_known_type_code, lemma_type_roundtrip, read_type_at, type_code, Type,
};

use crate::text::push_char;
use crate::types::dns::name::dotted;
use crate::types::rr::classes::class_text;
use crate::types::rr::types::type_text;

verus! {

/// Errors while reading or writing a question.
#[derive(Debug, Clone, Copy, PartialEq, Eq, Structural)]
pub enum QuestionError {
    NameError(ProtocolError),
    BufferError(BufferError),
}

/// [`Question`] describes a DNS question. The RFC allows multiple questions
/// per message, but most DNS servers only accept one and multiple questions
/// often result in errors.
///
/// See https://datatracker.ietf.org/doc/html/rfc1035#section-4.1.2
#[derive(Debug)]
pub struct Question {
    pub name: Name,
    pub ty: Type,
    pub class: Class,
}

/// The contents of a [`Question`].
pub struct QuestionView {
    pub name: Seq<Seq<u8>>,
    pub ty: Type,
    pub class: Class,
}

impl View for Question {
    type V = QuestionView;

    open spec fn view(&self) -> QuestionView {
        QuestionView { name: self.name@, ty: self.ty, class: self.class }
    }
}

/// Reading a question at offset `p`: QNAME, QTYPE and QCLASS.
pub open spec fn read_question_at(b: Seq<u8>, p: int) -> Result<(QuestionView, int), QuestionError> {
    match read_name(b, p) {
        Err(e) => Err(QuestionError::NameError(e)),
        Ok((name, p1)) => match read_type_at(b, p1) {
            Err(e) => Err(QuestionError::BufferError(e)),
            Ok((ty, p2)) => match read_class_at(b, p2) {
                Err(e) => Err(QuestionError::BufferError(e)),
                Ok((class, p3)) => Ok((QuestionView { name, ty, class }, p3)),
            },
        },
    }
}

/// A question on the wire.
pub open spec fn question_wire(q: QuestionView) -> Seq<u8> {
    name_wire(q.name) + u16_wire(type_code(q.ty)) + u16_wire(class_code(q.class))
}

/// The size of a question: its name on the wire, QTYPE and QCLASS.
pub open spec fn question_size(q: QuestionView) -> int {
    wire_len(q.name) + QUESTION_FIXED_LENGTH
}

impl Clone for Question {
    fn clone(&self) -> (r: Self)
        ensures
            r@ == self@,
    {
        Question { name: self.name.clone(), ty: self.ty, class: self.class }
    }
}

impl From<Query> for Question {
    fn from(q: Query) -> (r: Self) {
        Question { name: q.name, ty: q.ty, class: q.class }
    }
}

impl vstd::std_specs::convert::FromSpecImpl<Query> for Question {
    open spec fn obeys_from_spec() -> bool {
        true
    }

    open spec fn from_spec(q: Query) -> Self {
        Question { name: q.name, ty: q.ty, class: q.class }
    }
}

impl Question {
    /// Returns the size of this [`Question`] by adding up the length of the
    /// domain name and the fixed length (QTYPE and QCLASS).
    pub fn size(&self) -> (r: usize)
        ensures
            r == question_size(self@),
            r <= 256 + QUESTION_FIXED_LENGTH,
    {
        self.name.len() + QUESTION_FIXED_LENGTH
    }

    /// Reads a question.
    pub fn read(buf: &mut UnpackBuffer) -> (r: Result<Self, QuestionError>)
        ensures
            final(buf).bytes() == old(buf).bytes(),
            match read_question_at(old(buf).bytes(), old(buf).pos()) {
                Ok((q, p)) => r matches Ok(x) && x@ == q && final(buf).pos() == p,
                Err(e) => r matches Err(x) && x == e,
            },
    {
        let name = match Name::unpack(buf) {
            Ok(n) => n,
            Err(e) => return Err(QuestionError::NameError(e)),
        };
        let ty = match Type::read(buf) {
            Ok(t) => t,
            Err(e) => return Err(QuestionError::BufferError(e)),
        };
        let class = match Class::read(buf) {
            Ok(c) => c,
            Err(e) => return Err(QuestionError::BufferError(e)),
        };
        Ok(Question { name, ty, class })
    }

    /// Writes the question; refuses a name longer than 255 octets (after
    /// writing it).
    pub fn write(&self, buf: &mut PackBuffer) -> (r: Result<usize, QuestionError>)
        ensures
            question_wire(self@).len() == question_size(self@),
            wire_len(self@.name) <= 255 ==> r == Ok::<usize, QuestionError>(
                question_size(self@) as usize,
            ) && final(buf).bytes() == old(buf).bytes() + question_wire(self@),
            wire_len(self@.name) > 255 ==> r == Err::<usize, QuestionError>(
                QuestionError::NameError(ProtocolError::DomainNameTooLong),
            ),
    {
        let n = self.name.len();
        proof {
            lemma_name_wire_len(self@.name);
        }
        match self.name.pack(buf) {
            Ok(()) => {},
            Err(e) => return Err(QuestionError::NameError(e)),
        }
        self.ty.write(buf);
        self.class.write(buf);
        assert(buf.bytes() =~= old(buf).bytes() + question_wire(self@));
        Ok(n + QUESTION_FIXED_LENGTH)
    }
}

/// Whether the wire form of a question reads back as the same question: its
/// name does, and its type and class are not `UNKNOWN` with a code that a
/// named one has.
#[verifier::opaque]
pub open spec fn question_roundtrips(q: QuestionView) -> bool {
    &&& name_roundtrips(q.name)
    &&& q.ty matches Type::UNKNOWN(c) ==> !is_known_type_code(c)
    &&& q.class matches Class::UNKNOWN(c) ==> !is_known_class_code(c)
}

/// What [`Question::write`] writes, [`Question::read`] reads back, for a
/// question that [`question_roundtrips`].
pub proof fn lemma_question_write_read(q: QuestionView, pre: Seq<u8>, rest: Seq<u8>)
    requires
        question_roundtrips(q),
    ensures
        read_question_at(pre + question_wire(q) + rest, pre.len() as int) == Ok::<
            (QuestionView, int),
            QuestionError,
        >((q, pre.len() as int + question_wire(q).len())),
{
    reveal(question_roundtrips);
    let tail = u16_wire(type_code(q.ty)) + u16_wire(class_code(q.class)) + rest;
    let b = pre + question_wire(q) + rest;
    assert(b =~= pre + name_wire(q.name) + tail);
    lemma_pack_unpack(q.name, pre, tail);
    let p1 = pre.len() + name_wire(q.name).len();
    let pre1 = pre + name_wire(q.name);
    assert(b =~= pre1 + u16_wire(type_code(q.ty)) + (u16_wire(class_code(q.class)) + rest));
    crate::packing::lemma_u16_roundtrip(type_code(q.ty), u16_wire(class_code(q.class)) + rest, pre1);
    lemma_type_roundtrip(q.ty);
    let pre2 = pre1 + u16_wire(type_code(q.ty));
    assert(b =~= pre2 + u16_wire(class_code(q.class)) + rest);
    crate::packing::lemma_u16_roundtrip(class_code(q.class), rest, pre2);
    lemma_class_roundtrip(q.class);
}

/// A question as text: name, class and type, separated by tabs.
pub open spec fn question_text(q: QuestionView) -> Seq<char> {
    dotted(q.name) + seq!['\t'] + class_text(q.class) + seq!['\t'] + type_text(q.ty)
}

impl Question {
    /// The question as text.
    pub fn to_string(&self) -> (r: String)
        ensures
            r@ == question_text(self@),
    {
        let mut s = self.name.as_dotted_string();
        push_char(&mut s, '\t');
        let c = self.class.to_string();
        s.append(c.as_str());
        push_char(&mut s, '\t');
        let t = self.ty.to_string();
        s.append(t.as_str());
        assert(s@ =~= question_text(self@));
        s
    }
}

} // verus!
