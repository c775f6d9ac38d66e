use vstd::prelude::*;

use crate::constants::HEADER_LENGTH;
use crate::errors::BufferError;
use crate::packing::{PackBuffer, UnpackBuffer};
use crate::types::dns::header::{
    lemma_header_write_read, raw_from_header, raw_header_wire, read_header_at, Header,
};
use crate::types::dns::name::wire_len;
use crate::types::dns::query::{Query, QueryView, ToQuery};
use crate::types::dns::question::{
    lemma_question_write_read, question_roundtrips, question_size, question_wire, read_question_at,
    Question, QuestionError, QuestionView,
};
use crate::types::opcode::Opcode;
use crate::types::rcode::Rcode;
use crate::types::rr::rdata::{rdata_has_len, rdata_is_data, rdata_names_fit, RData, RDataView, SOA};
use crate::types::rr::record::{
    lemma_record_write_read, read_record_at, record_roundtrips, record_size, record_wire, Record,
    RecordError, RecordView,
};
use crate::types::rr::types::Type;

use crate::text::{decimal, push_char, push_decimal};
use crate::types::dns::question::question_text;
use crate::types::opcode::opcode_text;
use crate::types::rcode::rcode_text;
use crate::types::rr::record::record_text;

verus! {

/// Errors while reading or writing a message.
#[derive(Debug, Clone, Copy, PartialEq, Eq, Structural)]
pub enum MessageError {
    QuestionError(QuestionError),
    RecordError(RecordError),
    BufferError(BufferError),
}

/// The records a query resulted in, by section.
#[derive(Debug)]
pub struct ResultRecords {
    pub answers: Vec<Record>,
    pub authorities: Vec<Record>,
    pub additionals: Vec<Record>,
}

/// [`Message`] describes a complete DNS message as described in RFC 1035
/// Section 4. See https://datatracker.ietf.org/doc/html/rfc1035#section-4
#[derive(Debug)]
pub struct Message {
    header: Header,
    question: Vec<Question>,
    answers: Vec<Record>,
    authorities: Vec<Record>,
    additionals: Vec<Record>,
}

/// The contents of a [`Message`].
pub struct MessageView {
    pub header: Header,
    pub questions: Seq<QuestionView>,
    pub answers: Seq<RecordView>,
    pub authorities: Seq<RecordView>,
    pub additionals: Seq<RecordView>,
}

/// The contents of each question.
pub open spec fn question_views(v: Seq<Question>) -> Seq<QuestionView> {
    v.map_values(|q: Question| q@)
}

/// The contents of each record.
pub open spec fn record_views(v: Seq<Record>) -> Seq<RecordView> {
    v.map_values(|r: Record| r@)
}

impl View for Message {
    type V = MessageView;

    closed spec fn view(&self) -> MessageView {
        MessageView {
            header: self.header,
            questions: question_views(self.question@),
            answers: record_views(self.answers@),
            authorities: record_views(self.authorities@),
            additionals: record_views(self.additionals@),
        }
    }
}

/// Whether the header counts equal the number of entries in each section.
pub open spec fn counts_match(m: MessageView) -> bool {
    &&& m.header.qdcount == m.questions.len()
    &&& m.header.ancount == m.answers.len()
    &&& m.header.nscount == m.authorities.len()
    &&& m.header.arcount == m.additionals.len()
}

/// The message after [`Message::add_question`].
pub open spec fn with_question(m: MessageView, q: QuestionView) -> MessageView {
    MessageView {
        header: Header { qdcount: (m.header.qdcount + 1) as u16, ..m.header },
        questions: m.questions.push(q),
        ..m
    }
}

/// The message after [`Message::add_answer`].
pub open spec fn with_answer(m: MessageView, r: RecordView) -> MessageView {
    MessageView {
        header: Header { ancount: (m.header.ancount + 1) as u16, ..m.header },
        answers: m.answers.push(r),
        ..m
    }
}

/// The message after [`Message::add_authority`].
pub open spec fn with_authority(m: MessageView, r: RecordView) -> MessageView {
    MessageView {
        header: Header { nscount: (m.header.nscount + 1) as u16, ..m.header },
        authorities: m.authorities.push(r),
        ..m
    }
}

/// The message after [`Message::add_additional`].
pub open spec fn with_additional(m: MessageView, r: RecordView) -> MessageView {
    MessageView {
        header: Header { arcount: (m.header.arcount + 1) as u16, ..m.header },
        additionals: m.additionals.push(r),
        ..m
    }
}

/// The message after [`Message::add_answers`]: the count grows by the
/// number of records taken as `u16`.
pub open spec fn with_answers(m: MessageView, rs: Seq<RecordView>) -> MessageView {
    MessageView {
        header: Header { ancount: (m.header.ancount + (rs.len() as u16)) as u16, ..m.header },
        answers: m.answers + rs,
        ..m
    }
}

/// The message after [`Message::add_authorities`].
pub open spec fn with_authorities(m: MessageView, rs: Seq<RecordView>) -> MessageView {
    MessageView {
        header: Header { nscount: (m.header.nscount + (rs.len() as u16)) as u16, ..m.header },
        authorities: m.authorities + rs,
        ..m
    }
}

/// The message after [`Message::add_additionals`].
pub open spec fn with_additionals(m: MessageView, rs: Seq<RecordView>) -> MessageView {
    MessageView {
        header: Header { arcount: (m.header.arcount + (rs.len() as u16)) as u16, ..m.header },
        additionals: m.additionals + rs,
        ..m
    }
}

/// Reading `n` questions, one after the other, at offset `p`.
pub open spec fn read_questions_at(b: Seq<u8>, p: int, n: nat) -> Result<
    (Seq<QuestionView>, int),
    QuestionError,
>
    decreases n,
{
    if n == 0 {
        Ok((Seq::empty(), p))
    } else {
        match read_questions_at(b, p, (n - 1) as nat) {
            Err(e) => Err(e),
            Ok((qs, q)) => match read_question_at(b, q) {
                Err(e) => Err(e),
                Ok((x, r)) => Ok((qs.push(x), r)),
            },
        }
    }
}

/// Reading `n` resource records, one after the other, at offset `p`.
pub open spec fn read_records_at(b: Seq<u8>, p: int, n: nat) -> Result<
    (Seq<RecordView>, int),
    RecordError,
>
    decreases n,
{
    if n == 0 {
        Ok((Seq::empty(), p))
    } else {
        match read_records_at(b, p, (n - 1) as nat) {
            Err(e) => Err(e),
            Ok((rs, q)) => match read_record_at(b, q) {
                Err(e) => Err(e),
                Ok((x, r)) => Ok((rs.push(x), r)),
            },
        }
    }
}

/// Reading the rest of a message with header `h` at offset `p`: QDCOUNT
/// questions, then ANCOUNT answers, NSCOUNT authority records and ARCOUNT
/// additional records.
pub open spec fn read_message_at(b: Seq<u8>, p: int, h: Header) -> Result<
    (MessageView, int),
    MessageError,
> {
    match read_questions_at(b, p, h.qdcount as nat) {
        Err(e) => Err(MessageError::QuestionError(e)),
        Ok((questions, p1)) => match read_records_at(b, p1, h.ancount as nat) {
            Err(e) => Err(MessageError::RecordError(e)),
            Ok((answers, p2)) => match read_records_at(b, p2, h.nscount as nat) {
                Err(e) => Err(MessageError::RecordError(e)),
                Ok((authorities, p3)) => match read_records_at(b, p3, h.arcount as nat) {
                    Err(e) => Err(MessageError::RecordError(e)),
                    Ok((additionals, p4)) => Ok(
                        (MessageView { header: h, questions, answers, authorities, additionals }, p4),
                    ),
                },
            },
        },
    }
}

/// The total of [`record_size`] over the records.
pub open spec fn records_size(rs: Seq<RecordView>) -> int
    decreases rs.len(),
{
    if rs.len() == 0 {
        0
    } else {
        records_size(rs.drop_last()) + record_size(rs.last())
    }
}

/// The total of [`question_size`] over the questions.
pub open spec fn questions_size(qs: Seq<QuestionView>) -> int
    decreases qs.len(),
{
    if qs.len() == 0 {
        0
    } else {
        questions_size(qs.drop_last()) + question_size(qs.last())
    }
}

/// The size that [`Message::size`] gives: the header, [`question_size`] of
/// every question and [`record_size`] of every record.
pub open spec fn message_size(m: MessageView) -> int {
    HEADER_LENGTH + questions_size(m.questions) + records_size(m.answers) + records_size(
        m.authorities,
    ) + records_size(m.additionals)
}

/// Whether every record holds data that [`Record::write`] handles.
pub open spec fn records_are_data(rs: Seq<RecordView>) -> bool {
    forall|i: int| 0 <= i < rs.len() ==> rdata_is_data(#[trigger] rs[i].data)
}

/// Whether every record holds data that [`Record::size`] handles.
pub open spec fn records_have_len(rs: Seq<RecordView>) -> bool {
    forall|i: int| 0 <= i < rs.len() ==> rdata_has_len(#[trigger] rs[i].data)
}

/// The questions on the wire, one after the other.
pub open spec fn questions_wire(qs: Seq<QuestionView>) -> Seq<u8>
    decreases qs.len(),
{
    if qs.len() == 0 {
        Seq::empty()
    } else {
        questions_wire(qs.drop_last()) + question_wire(qs.last())
    }
}

/// The records on the wire, one after the other.
pub open spec fn records_wire(rs: Seq<RecordView>) -> Seq<u8>
    decreases rs.len(),
{
    if rs.len() == 0 {
        Seq::empty()
    } else {
        records_wire(rs.drop_last()) + record_wire(rs.last())
    }
}

/// A message on the wire.
#[verifier::opaque]
pub open spec fn message_wire(m: MessageView) -> Seq<u8> {
    raw_header_wire(raw_from_header(m.header)) + questions_wire(m.questions) + records_wire(
        m.answers,
    ) + records_wire(m.authorities) + records_wire(m.additionals)
}

/// Whether every name in the records fits in 255 octets.
pub open spec fn records_fit(rs: Seq<RecordView>) -> bool {
    forall|i: int|
        0 <= i < rs.len() ==> wire_len(#[trigger] rs[i].header.name) <= 255 && rdata_names_fit(
            rs[i].data,
        )
}

/// Whether every name in the message fits in 255 octets.
pub open spec fn message_fits(m: MessageView) -> bool {
    &&& forall|i: int| 0 <= i < m.questions.len() ==> wire_len(#[trigger] m.questions[i].name) <= 255
    &&& records_fit(m.answers)
    &&& records_fit(m.authorities)
    &&& records_fit(m.additionals)
}

impl Default for Message {
    /// A message with the default header and no questions or records.
    fn default() -> (r: Self)
        ensures
            r@ == (MessageView {
                header: crate::types::dns::header::default_header(),
                questions: Seq::empty(),
                answers: Seq::empty(),
                authorities: Seq::empty(),
                additionals: Seq::empty(),
            }),
    {
        Self::new_with_header(Header::default())
    }
}

impl Message {
    /// Return a new [`Message`] with the provided [`Header`] and no questions
    /// or records.
    pub fn new_with_header(header: Header) -> (r: Self)
        ensures
            r@ == (MessageView {
                header,
                questions: Seq::empty(),
                answers: Seq::empty(),
                authorities: Seq::empty(),
                additionals: Seq::empty(),
            }),
    {
        let r = Self {
            header,
            question: Vec::new(),
            answers: Vec::new(),
            authorities: Vec::new(),
            additionals: Vec::new(),
        };
        assert(question_views(r.question@) =~= Seq::<QuestionView>::empty());
        assert(record_views(r.answers@) =~= Seq::<RecordView>::empty());
        r
    }

    /// Set the vector of questions to the provided one. This does **NOT**
    /// update the QDCOUNT in the DNS header.
    pub(crate) fn set_questions(&mut self, questions: Vec<Question>)
        ensures
            final(self)@ == (MessageView { questions: question_views(questions@), ..old(self)@ }),
    {
        self.question = questions;
    }

    /// Adds one question to the question section and updates the QDCOUNT in
    /// the DNS header.
    pub fn add_question(&mut self, question: Question)
        requires
            old(self)@.header.qdcount < u16::MAX,
        ensures
            final(self)@ == with_question(old(self)@, question@),
            final(self)@.questions == old(self)@.questions.push(question@),
            final(self)@.header.qdcount == old(self)@.header.qdcount + 1,
    {
        let ghost q = question@;
        self.question.push(question);
        self.header.qdcount = self.header.qdcount + 1;
        assert(question_views(self.question@) =~= question_views(old(self).question@).push(q));
    }

    /// The first question, if any.
    pub fn question(&self) -> (r: Option<&Question>)
        ensures
            self@.questions.len() == 0 ==> r is None,
            self@.questions.len() > 0 ==> (r matches Some(q) && q@ == self@.questions[0]),
    {
        if self.question.len() != 0 {
            return Some(&self.question[0]);
        }
        None
    }

    /// Returns a reference to the list of questions.
    pub fn questions(&self) -> (r: &Vec<Question>)
        ensures
            question_views(r@) == self@.questions,
    {
        &self.question
    }

    /// Set the vector of answer records to the provided one. This does
    /// **NOT** update the ANCOUNT in the DNS header.
    pub(crate) fn set_answers(&mut self, answers: Vec<Record>)
        ensures
            final(self)@ == (MessageView { answers: record_views(answers@), ..old(self)@ }),
    {
        self.answers = answers;
    }

    /// Adds one answer to the answer section and updates the ANCOUNT in the
    /// DNS header.
    pub fn add_answer(&mut self, answer: Record)
        requires
            old(self)@.header.ancount < u16::MAX,
        ensures
            final(self)@ == with_answer(old(self)@, answer@),
            final(self)@.answers == old(self)@.answers.push(answer@),
            final(self)@.header.ancount == old(self)@.header.ancount + 1,
    {
        let ghost r = answer@;
        self.answers.push(answer);
        self.header.ancount = self.header.ancount + 1;
        assert(record_views(self.answers@) =~= record_views(old(self).answers@).push(r));
    }

    /// Adds multiple answers to the answer section and updates the ANCOUNT in
    /// the DNS header; `answers` is left empty.
    pub fn add_answers(&mut self, answers: &mut Vec<Record>)
        requires
            old(self)@.header.ancount + (old(answers)@.len() as u16) <= u16::MAX,
        ensures
            final(self)@ == with_answers(old(self)@, record_views(old(answers)@)),
            final(answers)@.len() == 0,
            final(self)@.answers == old(self)@.answers + record_views(old(answers)@),
            final(self)@.header.ancount == (old(self)@.header.ancount + (old(answers)@.len() as u16)) as u16,
            old(answers)@.len() <= u16::MAX ==> final(self)@.header.ancount == old(self)@.header.ancount
                + old(answers)@.len(),
    {
        self.header.ancount = self.header.ancount + #[verifier::truncate] (answers.len() as u16);
        self.answers.append(answers);
        assert(record_views(self.answers@) =~= record_views(old(self).answers@) + record_views(
            old(answers)@,
        ));
    }

    /// Returns a reference to the list of RRs in the answer section.
    pub fn answers(&self) -> (r: &Vec<Record>)
        ensures
            record_views(r@) == self@.answers,
    {
        &self.answers
    }

    /// Set the vector of authority records to the provided one. This does
    /// **NOT** update the NSCOUNT in the DNS header.
    pub(crate) fn set_authorities(&mut self, authorities: Vec<Record>)
        ensures
            final(self)@ == (MessageView { authorities: record_views(authorities@), ..old(self)@ }),
    {
        self.authorities = authorities;
    }

    /// Adds one authority record to the authority section and updates the
    /// NSCOUNT in the DNS header.
    pub fn add_authority(&mut self, authority: Record)
        requires
            old(self)@.header.nscount < u16::MAX,
        ensures
            final(self)@ == with_authority(old(self)@, authority@),
            final(self)@.authorities == old(self)@.authorities.push(authority@),
            final(self)@.header.nscount == old(self)@.header.nscount + 1,
    {
        let ghost r = authority@;
        self.authorities.push(authority);
        self.header.nscount = self.header.nscount + 1;
        assert(record_views(self.authorities@) =~= record_views(old(self).authorities@).push(r));
    }

    /// Adds multiple authority records to the authority section and updates
    /// the NSCOUNT in the DNS header; `authorities` is left empty.
    pub fn add_authorities(&mut self, authorities: &mut Vec<Record>)
        requires
            old(self)@.header.nscount + (old(authorities)@.len() as u16) <= u16::MAX,
        ensures
            final(self)@ == with_authorities(old(self)@, record_views(old(authorities)@)),
            final(authorities)@.len() == 0,
            final(self)@.authorities == old(self)@.authorities + record_views(old(authorities)@),
            final(self)@.header.nscount == (old(self)@.header.nscount + (old(authorities)@.len() as u16)) as u16,
            old(authorities)@.len() <= u16::MAX ==> final(self)@.header.nscount == old(self)@.header.nscount
                + old(authorities)@.len(),
    {
        self.header.nscount = self.header.nscount + #[verifier::truncate] (authorities.len() as u16);
        self.authorities.append(authorities);
        assert(record_views(self.authorities@) =~= record_views(old(self).authorities@)
            + record_views(old(authorities)@));
    }

    /// Returns a reference to the list of RRs in the authority section.
    pub fn authorities(&self) -> (r: &Vec<Record>)
        ensures
            record_views(r@) == self@.authorities,
    {
        &self.authorities
    }

    /// Set the vector of additional records to the provided one. This does
    /// **NOT** update the ARCOUNT in the DNS header.
    pub fn set_additionals(&mut self, additionals: Vec<Record>)
        ensures
            final(self)@ == (MessageView { additionals: record_views(additionals@), ..old(self)@ }),
    {
        self.additionals = additionals;
    }

    /// Adds one additional record to the additional section and updates the
    /// ARCOUNT in the DNS header.
    pub fn add_additional(&mut self, additional: Record)
        requires
            old(self)@.header.arcount < u16::MAX,
        ensures
            final(self)@ == with_additional(old(self)@, additional@),
            final(self)@.additionals == old(self)@.additionals.push(additional@),
            final(self)@.header.arcount == old(self)@.header.arcount + 1,
    {
        let ghost r = additional@;
        self.additionals.push(additional);
        self.header.arcount = self.header.arcount + 1;
        assert(record_views(self.additionals@) =~= record_views(old(self).additionals@).push(r));
    }

    /// Adds multiple additional records to the additional section and updates
    /// the ARCOUNT in the DNS header; `additionals` is left empty.
    pub fn add_additionals(&mut self, additionals: &mut Vec<Record>)
        requires
            old(self)@.header.arcount + (old(additionals)@.len() as u16) <= u16::MAX,
        ensures
            final(self)@ == with_additionals(old(self)@, record_views(old(additionals)@)),
            final(additionals)@.len() == 0,
            final(self)@.additionals == old(self)@.additionals + record_views(old(additionals)@),
            final(self)@.header.arcount == (old(self)@.header.arcount + (old(additionals)@.len() as u16)) as u16,
            old(additionals)@.len() <= u16::MAX ==> final(self)@.header.arcount == old(self)@.header.arcount
                + old(additionals)@.len(),
    {
        self.header.arcount = self.header.arcount + #[verifier::truncate] (additionals.len() as u16);
        self.additionals.append(additionals);
        assert(record_views(self.additionals@) =~= record_views(old(self).additionals@)
            + record_views(old(additionals)@));
    }

    /// Returns a reference to the list of RRs in the additional section.
    pub fn additionals(&self) -> (r: &Vec<Record>)
        ensures
            record_views(r@) == self@.additionals,
    {
        &self.additionals
    }

    /// Add all result records from a query to the correct RR sections. This
    /// updates all RR counts in the DNS header; the result is left empty.
    pub fn add_query_result(&mut self, result: &mut ResultRecords)
        requires
            old(self)@.header.ancount + (old(result).answers@.len() as u16) <= u16::MAX,
            old(self)@.header.nscount + (old(result).authorities@.len() as u16) <= u16::MAX,
            old(self)@.header.arcount + (old(result).additionals@.len() as u16) <= u16::MAX,
        ensures
            final(self)@ == with_additionals(
                with_authorities(
                    with_answers(old(self)@, record_views(old(result).answers@)),
                    record_views(old(result).authorities@),
                ),
                record_views(old(result).additionals@),
            ),
            final(result).answers@.len() == 0,
            final(result).authorities@.len() == 0,
            final(result).additionals@.len() == 0,
    {
        self.add_answers(&mut result.answers);
        self.add_authorities(&mut result.authorities);
        self.add_additionals(&mut result.additionals);
    }

    /// Set if the message is a response.
    pub fn set_is_response(&mut self, is_response: bool)
        ensures
            final(self)@ == (MessageView {
                header: Header { is_query: !is_response, ..old(self)@.header },
                ..old(self)@
            }),
    {
        self.header.is_query = !is_response;
    }

    /// Set if recursion is available.
    pub fn set_rec_avail(&mut self, avail: bool)
        ensures
            final(self)@ == (MessageView {
                header: Header { rec_avail: avail, ..old(self)@.header },
                ..old(self)@
            }),
    {
        self.header.rec_avail = avail;
    }

    /// Sets the RCODE of the message
    pub fn set_rcode(&mut self, rcode: Rcode)
        ensures
            final(self)@ == (MessageView {
                header: Header { rcode, ..old(self)@.header },
                ..old(self)@
            }),
    {
        self.header.rcode = rcode
    }

    /// The message header.
    pub fn header(&self) -> (r: Header)
        ensures
            r == self@.header,
    {
        self.header
    }

    /// Returns QDCOUNT stored in the DNS message header.
    pub fn qdcount(&self) -> (r: u16)
        ensures
            r == self@.header.qdcount,
    {
        self.header.qdcount
    }

    /// Returns ANCOUNT stored in the DNS message header.
    pub fn ancount(&self) -> (r: u16)
        ensures
            r == self@.header.ancount,
    {
        self.header.ancount
    }

    /// Returns NSCOUNT stored in the DNS message header.
    pub fn nscount(&self) -> (r: u16)
        ensures
            r == self@.header.nscount,
    {
        self.header.nscount
    }

    /// Returns ARCOUNT stored in the DNS message header.
    pub fn arcount(&self) -> (r: u16)
        ensures
            r == self@.header.arcount,
    {
        self.header.arcount
    }

    /// Returns the size of this DNS [`Message`]: the header and the size of
    /// every question and every record.
    pub fn size(&self) -> (r: usize)
        requires
            records_have_len(self@.answers),
            records_have_len(self@.authorities),
            records_have_len(self@.additionals),
            message_size(self@) <= usize::MAX,
        ensures
            r == message_size(self@),
    {
        proof {
            lemma_questions_size_prefix(self@.questions, 0);
            lemma_records_size_prefix(self@.answers, 0);
            lemma_records_size_prefix(self@.authorities, 0);
            lemma_records_size_prefix(self@.additionals, 0);
        }
        let mut len = HEADER_LENGTH;
        let q = sum_question_sizes(&self.question, (usize::MAX - len) as usize);
        len = len + q;
        let a = sum_sizes(&self.answers, (usize::MAX - len) as usize);
        len = len + a;
        let b = sum_sizes(&self.authorities, (usize::MAX - len) as usize);
        len = len + b;
        let c = sum_sizes(&self.additionals, (usize::MAX - len) as usize);
        len = len + c;
        len
    }

    /// Returns if the message contains any SOA RRs in the authority section.
    pub fn is_soa(&self) -> (r: bool)
        ensures
            r == exists|i: int|
                0 <= i < self@.authorities.len() && (#[trigger] self@.authorities[i]).header.ty
                    == Type::SOA,
    {
        let mut i: usize = 0;
        while i < self.authorities.len()
            invariant
                i <= self.authorities@.len(),
                record_views(self.authorities@) == self@.authorities,
                forall|j: int| 0 <= j < i ==> (#[trigger] self@.authorities[j]).header.ty != Type::SOA,
            decreases self.authorities@.len() - i,
        {
            if self.authorities[i].is_soa() {
                assert(self@.authorities[i as int].header.ty == Type::SOA);
                return true;
            }
            i = i + 1;
        }
        false
    }

    /// Returns the data of the first SOA record in the authority section, if
    /// any.
    pub fn get_soa_record(&self) -> (r: Option<&SOA>)
        ensures
            r is None <==> forall|i: int|
                0 <= i < self@.authorities.len() ==> !((#[trigger] self@.authorities[i]).data is SOA),
            r matches Some(s) ==> exists|i: int|
                0 <= i < self@.authorities.len() && (#[trigger] self@.authorities[i]).data
                    == RDataView::SOA(s@) && forall|j: int|
                    0 <= j < i ==> !((#[trigger] self@.authorities[j]).data is SOA),
    {
        let mut i: usize = 0;
        while i < self.authorities.len()
            invariant
                i <= self.authorities@.len(),
                record_views(self.authorities@) == self@.authorities,
                forall|j: int| 0 <= j < i ==> !((#[trigger] self@.authorities[j]).data is SOA),
            decreases self.authorities@.len() - i,
        {
            match self.authorities[i].rdata() {
                RData::SOA(soa) => {
                    assert(self@.authorities[i as int].data == RDataView::SOA(soa@));
                    return Some(soa);
                },
                _ => {},
            }
            i = i + 1;
        }
        None
    }

    /// Returns if the message contains any OPT records in the additional
    /// section. The section is searched from the back, because the OPT RRs
    /// are usually at the end of this section.
    pub fn is_edns(&self) -> (r: bool)
        ensures
            r == exists|i: int|
                0 <= i < self@.additionals.len() && (#[trigger] self@.additionals[i]).header.ty
                    == Type::OPT,
    {
        let mut i: usize = self.additionals.len();
        while i > 0
            invariant
                i <= self.additionals@.len(),
                record_views(self.additionals@) == self@.additionals,
                forall|j: int|
                    i <= j < self@.additionals.len() ==> (#[trigger] self@.additionals[j]).header.ty
                        != Type::OPT,
            decreases i,
        {
            if self.additionals[i - 1].is_edns() {
                assert(self@.additionals[i - 1].header.ty == Type::OPT);
                return true;
            }
            i = i - 1;
        }
        false
    }

    /// Read the complete DNS [`Message`] based on the already read
    /// [`Header`]: QDCOUNT questions, then ANCOUNT, NSCOUNT and ARCOUNT
    /// records.
    pub fn read(buf: &mut UnpackBuffer, header: Header) -> (r: Result<Self, MessageError>)
        ensures
            final(buf).bytes() == old(buf).bytes(),
            match read_message_at(old(buf).bytes(), old(buf).pos(), header) {
                Ok((m, p)) => r matches Ok(x) && x@ == m && final(buf).pos() == p,
                Err(e) => r matches Err(x) && x == e,
            },
    {
        let mut message = Self::new_with_header(header);

        // Read questions
        let questions = match read_questions(buf, message.qdcount()) {
            Ok(q) => q,
            Err(e) => return Err(MessageError::QuestionError(e)),
        };
        message.set_questions(questions);

        // Read answer records. This will most likely be empty for requests
        let answers = match read_rrs(buf, message.ancount()) {
            Ok(r) => r,
            Err(e) => return Err(MessageError::RecordError(e)),
        };
        message.set_answers(answers);

        // Read authority records
        let authorities = match read_rrs(buf, message.nscount()) {
            Ok(r) => r,
            Err(e) => return Err(MessageError::RecordError(e)),
        };
        message.set_authorities(authorities);

        // Read additional records
        let additionals = match read_rrs(buf, message.arcount()) {
            Ok(r) => r,
            Err(e) => return Err(MessageError::RecordError(e)),
        };
        message.set_additionals(additionals);

        Ok(message)
    }

    /// Writes the message: the header, the questions and the records of the
    /// three sections; refuses a name longer than 255 octets.
    pub fn write(&self, buf: &mut PackBuffer) -> (r: Result<usize, MessageError>)
        requires
            records_are_data(self@.answers),
            records_are_data(self@.authorities),
            records_are_data(self@.additionals),
        ensures
            r is Ok <==> message_fits(self@),
            r matches Ok(n) ==> final(buf).bytes() == old(buf).bytes() + message_wire(self@) && n
                == message_wire(self@).len(),
    {
        let h = self.header.write(buf);
        let q = write_questions(&self.question, buf)?;
        let a = write_records(&self.answers, buf)?;
        let b = write_records(&self.authorities, buf)?;
        let c = write_records(&self.additionals, buf)?;
        proof {
            reveal(message_wire);
        }
        assert(buf.bytes() =~= old(buf).bytes() + message_wire(self@));
        proof {
            buf.lemma_bytes_fit();
        }
        Ok(h + q + a + b + c)
    }
}

impl<'a> ToQuery for &'a Message {
    /// The message must have a question.
    open spec fn to_query_requires(&self) -> bool {
        self@.questions.len() > 0
    }

    /// The first question.
    open spec fn query_view(&self) -> QueryView {
        QueryView {
            name: self@.questions[0].name,
            ty: self@.questions[0].ty,
            class: self@.questions[0].class,
        }
    }

    fn to_query(self) -> (q: Query) {
        let question = self.question().unwrap();
        Query { name: question.name.clone(), ty: question.ty, class: question.class }
    }
}

/// Reads `count` questions.
fn read_questions(buf: &mut UnpackBuffer, count: u16) -> (r: Result<Vec<Question>, QuestionError>)
    ensures
        final(buf).bytes() == old(buf).bytes(),
        match read_questions_at(old(buf).bytes(), old(buf).pos(), count as nat) {
            Ok((qs, p)) => r matches Ok(x) && question_views(x@) == qs && final(buf).pos() == p,
            Err(e) => r matches Err(x) && x == e,
        },
{
    let mut questions: Vec<Question> = Vec::new();
    let mut i: u16 = 0;
    assert(question_views(questions@) =~= Seq::<QuestionView>::empty());
    while i < count
        invariant
            i <= count,
            buf.bytes() == old(buf).bytes(),
            read_questions_at(old(buf).bytes(), old(buf).pos(), i as nat) == Ok::<
                (Seq<QuestionView>, int),
                QuestionError,
            >((question_views(questions@), buf.pos())),
        decreases count - i,
    {
        let ghost before = question_views(questions@);
        match Question::read(buf) {
            Ok(question) => {
                let ghost v = question@;
                questions.push(question);
                assert(question_views(questions@) =~= before.push(v));
            },
            Err(err) => {
                proof {
                    lemma_read_questions_err(old(buf).bytes(), old(buf).pos(), (i + 1) as nat, count as nat);
                }
                return Err(err);
            },
        }
        i = i + 1;
    }
    Ok(questions)
}

/// Reads `count` resource records.
fn read_rrs(buf: &mut UnpackBuffer, count: u16) -> (r: Result<Vec<Record>, RecordError>)
    ensures
        final(buf).bytes() == old(buf).bytes(),
        match read_records_at(old(buf).bytes(), old(buf).pos(), count as nat) {
            Ok((rs, p)) => r matches Ok(x) && record_views(x@) == rs && final(buf).pos() == p,
            Err(e) => r matches Err(x) && x == e,
        },
{
    let mut rrs: Vec<Record> = Vec::new();
    let mut i: u16 = 0;
    assert(record_views(rrs@) =~= Seq::<RecordView>::empty());
    while i < count
        invariant
            i <= count,
            buf.bytes() == old(buf).bytes(),
            read_records_at(old(buf).bytes(), old(buf).pos(), i as nat) == Ok::<
                (Seq<RecordView>, int),
                RecordError,
            >((record_views(rrs@), buf.pos())),
        decreases count - i,
    {
        let ghost before = record_views(rrs@);
        match Record::read(buf) {
            Ok(rr) => {
                let ghost v = rr@;
                rrs.push(rr);
                assert(record_views(rrs@) =~= before.push(v));
            },
            Err(err) => {
                proof {
                    lemma_read_records_err(old(buf).bytes(), old(buf).pos(), (i + 1) as nat, count as nat);
                }
                return Err(err);
            },
        }
        i = i + 1;
    }
    Ok(rrs)
}

proof fn lemma_read_questions_err(b: Seq<u8>, p: int, k: nat, n: nat)
    requires
        k <= n,
        read_questions_at(b, p, k) is Err,
    ensures
        read_questions_at(b, p, n) == read_questions_at(b, p, k),
    decreases n,
{
    if n > k {
        lemma_read_questions_err(b, p, k, (n - 1) as nat);
    }
}

proof fn lemma_read_records_err(b: Seq<u8>, p: int, k: nat, n: nat)
    requires
        k <= n,
        read_records_at(b, p, k) is Err,
    ensures
        read_records_at(b, p, n) == read_records_at(b, p, k),
    decreases n,
{
    if n > k {
        lemma_read_records_err(b, p, k, (n - 1) as nat);
    }
}

/// The total of [`Record::size`] over the records, which must not exceed
/// `limit`.
fn sum_sizes(rs: &Vec<Record>, limit: usize) -> (r: usize)
    requires
        records_have_len(record_views(rs@)),
        records_size(record_views(rs@)) <= limit,
    ensures
        r == records_size(record_views(rs@)),
{
    let ghost all = record_views(rs@);
    let mut total: usize = 0;
    let mut i: usize = 0;
    while i < rs.len()
        invariant
            all == record_views(rs@),
            records_have_len(all),
            records_size(all) <= limit,
            i <= rs@.len(),
            total == records_size(all.take(i as int)),
        decreases rs@.len() - i,
    {
        proof {
            assert(all.take(i + 1).drop_last() =~= all.take(i as int));
            lemma_records_size_prefix(all, i + 1);
        }
        assert(rdata_has_len(all[i as int].data));
        total = total + rs[i].size();
        i = i + 1;
    }
    assert(all.take(i as int) =~= all);
    total
}

/// The total of [`Question::size`] over the questions, which must not
/// exceed `limit`.
fn sum_question_sizes(qs: &Vec<Question>, limit: usize) -> (r: usize)
    requires
        questions_size(question_views(qs@)) <= limit,
    ensures
        r == questions_size(question_views(qs@)),
{
    let ghost all = question_views(qs@);
    let mut total: usize = 0;
    let mut i: usize = 0;
    while i < qs.len()
        invariant
            all == question_views(qs@),
            questions_size(all) <= limit,
            i <= qs@.len(),
            total == questions_size(all.take(i as int)),
        decreases qs@.len() - i,
    {
        proof {
            assert(all.take(i + 1).drop_last() =~= all.take(i as int));
            lemma_questions_size_prefix(all, i + 1);
        }
        assert(all[i as int] == qs@[i as int]@);
        total = total + qs[i].size();
        i = i + 1;
    }
    assert(all.take(i as int) =~= all);
    total
}

/// Question sizes are never negative, and a prefix has no greater total.
proof fn lemma_questions_size_prefix(qs: Seq<QuestionView>, k: int)
    requires
        0 <= k <= qs.len(),
    ensures
        0 <= questions_size(qs.take(k)) <= questions_size(qs),
    decreases qs.len(),
{
    if k < qs.len() {
        assert(qs.drop_last().take(k) =~= qs.take(k));
        lemma_questions_size_prefix(qs.drop_last(), k);
    } else {
        assert(qs.take(k) =~= qs);
        if qs.len() > 0 {
            assert(qs.drop_last().take(qs.len() - 1) =~= qs.drop_last());
            lemma_questions_size_prefix(qs.drop_last(), qs.len() - 1);
        }
    }
}

/// Record sizes are never negative, and a prefix has no greater total.
proof fn lemma_records_size_prefix(rs: Seq<RecordView>, k: int)
    requires
        0 <= k <= rs.len(),
    ensures
        0 <= records_size(rs.take(k)) <= records_size(rs),
    decreases rs.len(),
{
    if k < rs.len() {
        assert(rs.drop_last().take(k) =~= rs.take(k));
        lemma_records_size_prefix(rs.drop_last(), k);
        crate::types::rr::record::lemma_record_size_nonneg(rs.last());
    } else {
        assert(rs.take(k) =~= rs);
        if rs.len() > 0 {
            lemma_records_size_prefix(rs.drop_last(), k - 1);
            assert(rs.drop_last().take(k - 1) =~= rs.drop_last());
            crate::types::rr::record::lemma_record_size_nonneg(rs.last());
        }
    }
}

/// Writes the questions one after the other.
fn write_questions(qs: &Vec<Question>, buf: &mut PackBuffer) -> (r: Result<usize, MessageError>)
    ensures
        r is Ok <==> forall|i: int|
            0 <= i < qs@.len() ==> wire_len(#[trigger] question_views(qs@)[i].name) <= 255,
        r matches Ok(n) ==> final(buf).bytes() == old(buf).bytes() + questions_wire(
            question_views(qs@),
        ) && n == questions_wire(question_views(qs@)).len(),
{
    let ghost all = question_views(qs@);
    let mut n: usize = 0;
    let mut i: usize = 0;
    while i < qs.len()
        invariant
            all == question_views(qs@),
            i <= qs@.len(),
            forall|j: int| 0 <= j < i ==> wire_len(#[trigger] all[j].name) <= 255,
            buf.bytes() == old(buf).bytes() + questions_wire(all.take(i as int)),
            n == questions_wire(all.take(i as int)).len(),
        decreases qs@.len() - i,
    {
        let m = match qs[i].write(buf) {
            Ok(m) => m,
            Err(e) => {
                assert(!(wire_len(all[i as int].name) <= 255));
                return Err(MessageError::QuestionError(e));
            },
        };
        proof {
            assert(all.take(i + 1).drop_last() =~= all.take(i as int));
            assert(all.take(i + 1).last() == all[i as int]);
            buf.lemma_bytes_fit();
        }
        n = n + m;
        i = i + 1;
    }
    assert(all.take(i as int) =~= all);
    Ok(n)
}

/// Writes the records one after the other.
fn write_records(rs: &Vec<Record>, buf: &mut PackBuffer) -> (r: Result<usize, MessageError>)
    requires
        records_are_data(record_views(rs@)),
    ensures
        r is Ok <==> records_fit(record_views(rs@)),
        r matches Ok(n) ==> final(buf).bytes() == old(buf).bytes() + records_wire(
            record_views(rs@),
        ) && n == records_wire(record_views(rs@)).len(),
{
    let ghost all = record_views(rs@);
    let mut n: usize = 0;
    let mut i: usize = 0;
    while i < rs.len()
        invariant
            all == record_views(rs@),
            records_are_data(all),
            i <= rs@.len(),
            forall|j: int|
                0 <= j < i ==> wire_len(#[trigger] all[j].header.name) <= 255 && rdata_names_fit(
                    all[j].data,
                ),
            buf.bytes() == old(buf).bytes() + records_wire(all.take(i as int)),
            n == records_wire(all.take(i as int)).len(),
        decreases rs@.len() - i,
    {
        assert(rdata_is_data(all[i as int].data));
        let m = match rs[i].write(buf) {
            Ok(m) => m,
            Err(e) => {
                assert(!(wire_len(all[i as int].header.name) <= 255 && rdata_names_fit(
                    all[i as int].data,
                )));
                return Err(MessageError::RecordError(e));
            },
        };
        proof {
            assert(all.take(i + 1).drop_last() =~= all.take(i as int));
            assert(all.take(i + 1).last() == all[i as int]);
            buf.lemma_bytes_fit();
        }
        n = n + m;
        i = i + 1;
    }
    assert(all.take(i as int) =~= all);
    Ok(n)
}

/// Adding entries keeps the header counts equal to the section lengths.
pub proof fn lemma_add_keeps_counts(m: MessageView, q: QuestionView, r: RecordView, rs: Seq<RecordView>)
    requires
        counts_match(m),
    ensures
        m.header.qdcount < u16::MAX ==> counts_match(with_question(m, q)),
        m.header.ancount < u16::MAX ==> counts_match(with_answer(m, r)),
        m.header.nscount < u16::MAX ==> counts_match(with_authority(m, r)),
        m.header.arcount < u16::MAX ==> counts_match(with_additional(m, r)),
        m.header.ancount + rs.len() <= u16::MAX ==> counts_match(with_answers(m, rs)),
        m.header.nscount + rs.len() <= u16::MAX ==> counts_match(with_authorities(m, rs)),
        m.header.arcount + rs.len() <= u16::MAX ==> counts_match(with_additionals(m, rs)),
{
}

proof fn lemma_read_questions_len(b: Seq<u8>, p: int, n: nat)
    ensures
        read_questions_at(b, p, n) matches Ok((qs, _)) ==> qs.len() == n,
    decreases n,
{
    if n > 0 {
        lemma_read_questions_len(b, p, (n - 1) as nat);
    }
}

proof fn lemma_read_records_len(b: Seq<u8>, p: int, n: nat)
    ensures
        read_records_at(b, p, n) matches Ok((rs, _)) ==> rs.len() == n,
    decreases n,
{
    if n > 0 {
        lemma_read_records_len(b, p, (n - 1) as nat);
    }
}

/// A message that is read has as many entries in each section as its header
/// counts say.
pub proof fn lemma_read_counts_match(b: Seq<u8>, p: int, h: Header)
    ensures
        read_message_at(b, p, h) matches Ok((m, _)) ==> counts_match(m),
{
    lemma_read_questions_len(b, p, h.qdcount as nat);
    match read_questions_at(b, p, h.qdcount as nat) {
        Ok((_, p1)) => {
            lemma_read_records_len(b, p1, h.ancount as nat);
            match read_records_at(b, p1, h.ancount as nat) {
                Ok((_, p2)) => {
                    lemma_read_records_len(b, p2, h.nscount as nat);
                    match read_records_at(b, p2, h.nscount as nat) {
                        Ok((_, p3)) => {
                            lemma_read_records_len(b, p3, h.arcount as nat);
                        },
                        Err(_) => {},
                    }
                },
                Err(_) => {},
            }
        },
        Err(_) => {},
    }
}

/// Reading back the questions that [`questions_wire`] wrote.
#[verifier::spinoff_prover]
proof fn lemma_questions_write_read(qs: Seq<QuestionView>, pre: Seq<u8>, rest: Seq<u8>)
    requires
        forall|i: int| 0 <= i < qs.len() ==> #[trigger] question_roundtrips(qs[i]),
    ensures
        read_questions_at(pre + questions_wire(qs) + rest, pre.len() as int, qs.len()) == Ok::<
            (Seq<QuestionView>, int),
            QuestionError,
        >((qs, pre.len() + questions_wire(qs).len() as int)),
    decreases qs.len(),
{
    if qs.len() == 0 {
        assert(qs =~= Seq::<QuestionView>::empty());
    } else {
        let init = qs.drop_last();
        let last = qs.last();
        let b = pre + questions_wire(qs) + rest;
        assert(b =~= pre + questions_wire(init) + (question_wire(last) + rest));
        assert forall|i: int| 0 <= i < init.len() implies #[trigger] question_roundtrips(init[i]) by {
            assert(init[i] == qs[i]);
        }
        lemma_questions_write_read(init, pre, question_wire(last) + rest);
        assert(question_roundtrips(qs[qs.len() - 1]));
        assert(b =~= (pre + questions_wire(init)) + question_wire(last) + rest);
        lemma_question_write_read(last, pre + questions_wire(init), rest);
        assert(init.push(last) =~= qs);
    }
}

/// Reading back the records that [`records_wire`] wrote.
#[verifier::spinoff_prover]
proof fn lemma_records_write_read(rs: Seq<RecordView>, pre: Seq<u8>, rest: Seq<u8>)
    requires
        forall|i: int| 0 <= i < rs.len() ==> #[trigger] record_roundtrips(rs[i]),
    ensures
        read_records_at(pre + records_wire(rs) + rest, pre.len() as int, rs.len()) == Ok::<
            (Seq<RecordView>, int),
            RecordError,
        >((rs, pre.len() + records_wire(rs).len() as int)),
    decreases rs.len(),
{
    if rs.len() == 0 {
        assert(rs =~= Seq::<RecordView>::empty());
    } else {
        let init = rs.drop_last();
        let last = rs.last();
        let b = pre + records_wire(rs) + rest;
        assert(b =~= pre + records_wire(init) + (record_wire(last) + rest));
        assert forall|i: int| 0 <= i < init.len() implies #[trigger] record_roundtrips(init[i]) by {
            assert(init[i] == rs[i]);
        }
        lemma_records_write_read(init, pre, record_wire(last) + rest);
        assert(record_roundtrips(rs[rs.len() - 1]));
        assert(b =~= (pre + records_wire(init)) + record_wire(last) + rest);
        lemma_record_write_read(last, pre + records_wire(init), rest);
        assert(init.push(last) =~= rs);
    }
}

/// Whether the wire form of a message reads back as the same message: its
/// header counts are the section lengths, its header reads back (see
/// [`lemma_header_write_read`]), and so does every question and record.
pub open spec fn message_roundtrips(m: MessageView) -> bool {
    &&& counts_match(m)
    &&& m.header.opcode != Opcode::Reserved || !m.header.is_query
    &&& forall|i: int| 0 <= i < m.questions.len() ==> #[trigger] question_roundtrips(m.questions[i])
    &&& forall|i: int| 0 <= i < m.answers.len() ==> #[trigger] record_roundtrips(m.answers[i])
    &&& forall|i: int|
        0 <= i < m.authorities.len() ==> #[trigger] record_roundtrips(m.authorities[i])
    &&& forall|i: int|
        0 <= i < m.additionals.len() ==> #[trigger] record_roundtrips(m.additionals[i])
}

/// Concatenation is associative.
proof fn lemma_concat_assoc(u: Seq<u8>, v: Seq<u8>, w: Seq<u8>)
    ensures
        u + v + w == u + (v + w),
{
    assert(u + v + w =~= u + (v + w));
}

/// Octets `x` between `h` and `t`, inside `pre` and `rest`.
proof fn lemma_concat_regroup(pre: Seq<u8>, h: Seq<u8>, x: Seq<u8>, t: Seq<u8>, rest: Seq<u8>)
    ensures
        pre + (h + x + t) + rest == (pre + h) + x + (t + rest),
{
    assert(pre + (h + x + t) + rest =~= (pre + h) + x + (t + rest));
}

/// The header octets of a written message.
#[verifier::spinoff_prover]
proof fn lemma_message_header_part(m: MessageView, pre: Seq<u8>, rest: Seq<u8>)
    requires
        m.header.opcode != Opcode::Reserved || !m.header.is_query,
    ensures
        read_header_at(pre + message_wire(m) + rest, pre.len() as int) == Ok::<
            (Header, int),
            BufferError,
        >((m.header, pre.len() as int + 12)),
{
    reveal(message_wire);
    let hw = raw_header_wire(raw_from_header(m.header));
    let qw = questions_wire(m.questions);
    let aw = records_wire(m.answers);
    let nw = records_wire(m.authorities);
    let dw = records_wire(m.additionals);
    let more = qw + aw + nw + dw;
    lemma_concat_assoc(hw, qw, aw);
    lemma_concat_assoc(hw, qw + aw, nw);
    lemma_concat_assoc(hw, qw + aw + nw, dw);
    lemma_concat_regroup(pre, Seq::<u8>::empty(), hw, more, rest);
    assert(Seq::<u8>::empty() + hw =~= hw);
    assert(pre + Seq::<u8>::empty() =~= pre);
    lemma_header_write_read(m.header, pre, more + rest);
}

/// The question octets of a written message.
#[verifier::spinoff_prover]
proof fn lemma_message_questions_part(m: MessageView, pre: Seq<u8>, rest: Seq<u8>)
    requires
        forall|i: int| 0 <= i < m.questions.len() ==> #[trigger] question_roundtrips(m.questions[i]),
        m.header.qdcount == m.questions.len(),
    ensures
        read_questions_at(pre + message_wire(m) + rest, pre.len() as int + 12, m.header.qdcount as nat)
            == Ok::<(Seq<QuestionView>, int), QuestionError>(
            (m.questions, pre.len() as int + 12 + questions_wire(m.questions).len()),
        ),
{
    reveal(message_wire);
    let hw = raw_header_wire(raw_from_header(m.header));
    let qw = questions_wire(m.questions);
    let aw = records_wire(m.answers);
    let nw = records_wire(m.authorities);
    let dw = records_wire(m.additionals);
    let more = aw + nw + dw;
    lemma_concat_assoc(hw + qw, aw, nw);
    lemma_concat_assoc(hw + qw, aw + nw, dw);
    lemma_concat_regroup(pre, hw, qw, more, rest);
    lemma_questions_write_read(m.questions, pre + hw, more + rest);
}

/// Reading back a section of records that stands between `a` and `c`.
proof fn lemma_section_read(
    rs: Seq<RecordView>,
    a: Seq<u8>,
    c: Seq<u8>,
    pre: Seq<u8>,
    rest: Seq<u8>,
)
    requires
        forall|i: int| 0 <= i < rs.len() ==> #[trigger] record_roundtrips(rs[i]),
    ensures
        read_records_at(pre + (a + records_wire(rs) + c) + rest, pre.len() + a.len() as int, rs.len())
            == Ok::<(Seq<RecordView>, int), RecordError>(
            (rs, pre.len() + a.len() + records_wire(rs).len() as int),
        ),
{
    lemma_concat_regroup(pre, a, records_wire(rs), c, rest);
    lemma_records_write_read(rs, pre + a, c + rest);
}

/// The header of a written message takes twelve octets.
proof fn lemma_raw_header_wire_len(m: MessageView)
    ensures
        raw_header_wire(raw_from_header(m.header)).len() == 12,
{
}

/// The answer octets of a written message.
#[verifier::spinoff_prover]
proof fn lemma_message_answers_part(m: MessageView, pre: Seq<u8>, rest: Seq<u8>)
    requires
        forall|i: int| 0 <= i < m.answers.len() ==> #[trigger] record_roundtrips(m.answers[i]),
        m.header.ancount == m.answers.len(),
    ensures
        ({
            let p2 = pre.len() as int + 12 + questions_wire(m.questions).len();
            read_records_at(pre + message_wire(m) + rest, p2, m.header.ancount as nat) == Ok::<
                (Seq<RecordView>, int),
                RecordError,
            >((m.answers, p2 + records_wire(m.answers).len()))
        }),
{
    let hw = raw_header_wire(raw_from_header(m.header));
    let before = hw + questions_wire(m.questions);
    let rw = records_wire(m.answers);
    let after = records_wire(m.authorities) + records_wire(m.additionals);
    assert(message_wire(m) == before + rw + after) by {
        reveal(message_wire);
        lemma_concat_assoc(before + rw, records_wire(m.authorities), records_wire(m.additionals));
    }
    lemma_raw_header_wire_len(m);
    lemma_section_read(m.answers, before, after, pre, rest);
}

/// The authority octets of a written message.
#[verifier::spinoff_prover]
proof fn lemma_message_authorities_part(m: MessageView, pre: Seq<u8>, rest: Seq<u8>)
    requires
        forall|i: int| 0 <= i < m.authorities.len() ==> #[trigger] record_roundtrips(m.authorities[i]),
        m.header.nscount == m.authorities.len(),
    ensures
        ({
            let p3 = pre.len() as int + 12 + questions_wire(m.questions).len() + records_wire(m.answers).len();
            read_records_at(pre + message_wire(m) + rest, p3, m.header.nscount as nat) == Ok::<
                (Seq<RecordView>, int),
                RecordError,
            >((m.authorities, p3 + records_wire(m.authorities).len()))
        }),
{
    let hw = raw_header_wire(raw_from_header(m.header));
    let before = hw + questions_wire(m.questions) + records_wire(m.answers);
    let rw = records_wire(m.authorities);
    let after = records_wire(m.additionals);
    assert(message_wire(m) == before + rw + after) by {
        reveal(message_wire);
    }
    lemma_raw_header_wire_len(m);
    lemma_section_read(m.authorities, before, after, pre, rest);
}

/// The additional octets of a written message.
#[verifier::spinoff_prover]
proof fn lemma_message_additionals_part(m: MessageView, pre: Seq<u8>, rest: Seq<u8>)
    requires
        forall|i: int| 0 <= i < m.additionals.len() ==> #[trigger] record_roundtrips(m.additionals[i]),
        m.header.arcount == m.additionals.len(),
    ensures
        ({
            let p4 = pre.len() as int + 12 + questions_wire(m.questions).len() + records_wire(m.answers).len()
                + records_wire(m.authorities).len();
            read_records_at(pre + message_wire(m) + rest, p4, m.header.arcount as nat) == Ok::<
                (Seq<RecordView>, int),
                RecordError,
            >((m.additionals, p4 + records_wire(m.additionals).len()))
        }),
{
    let hw = raw_header_wire(raw_from_header(m.header));
    let before = hw + questions_wire(m.questions) + records_wire(m.answers) + records_wire(
        m.authorities,
    );
    let rw = records_wire(m.additionals);
    let after = Seq::<u8>::empty();
    assert(message_wire(m) == before + rw + after) by {
        reveal(message_wire);
        assert(before + rw + after =~= before + rw);
    }
    lemma_raw_header_wire_len(m);
    lemma_section_read(m.additionals, before, after, pre, rest);
}

/// Reading a message whose sections each read back.
#[verifier::spinoff_prover]
proof fn lemma_read_message_steps(
    b: Seq<u8>,
    m: MessageView,
    p1: int,
    p2: int,
    p3: int,
    p4: int,
    p5: int,
)
    requires
        read_questions_at(b, p1, m.header.qdcount as nat) == Ok::<(Seq<QuestionView>, int), QuestionError>(
            (m.questions, p2),
        ),
        read_records_at(b, p2, m.header.ancount as nat) == Ok::<(Seq<RecordView>, int), RecordError>(
            (m.answers, p3),
        ),
        read_records_at(b, p3, m.header.nscount as nat) == Ok::<(Seq<RecordView>, int), RecordError>(
            (m.authorities, p4),
        ),
        read_records_at(b, p4, m.header.arcount as nat) == Ok::<(Seq<RecordView>, int), RecordError>(
            (m.additionals, p5),
        ),
    ensures
        read_message_at(b, p1, m.header) == Ok::<(MessageView, int), MessageError>((m, p5)),
{
}

/// The length of a message on the wire, by part.
#[verifier::spinoff_prover]
proof fn lemma_message_wire_len(m: MessageView)
    ensures
        raw_header_wire(raw_from_header(m.header)).len() == 12,
        message_wire(m).len() == 12 + questions_wire(m.questions).len() + records_wire(m.answers).len()
            + records_wire(m.authorities).len() + records_wire(m.additionals).len(),
{
    reveal(message_wire);
}

/// The sections of a written message, read after its header.
#[verifier::spinoff_prover]
#[verifier::rlimit(40)]
proof fn lemma_message_sections(m: MessageView, pre: Seq<u8>, rest: Seq<u8>)
    requires
        message_roundtrips(m),
    ensures
        read_message_at(pre + message_wire(m) + rest, pre.len() as int + 12, m.header) == Ok::<
            (MessageView, int),
            MessageError,
        >((m, pre.len() + message_wire(m).len() as int)),
{
    lemma_message_questions_part(m, pre, rest);
    lemma_message_answers_part(m, pre, rest);
    lemma_message_authorities_part(m, pre, rest);
    lemma_message_additionals_part(m, pre, rest);
    lemma_message_wire_len(m);
    let p1 = pre.len() as int + 12;
    let p2 = p1 + questions_wire(m.questions).len();
    let p3 = p2 + records_wire(m.answers).len();
    let p4 = p3 + records_wire(m.authorities).len();
    let p5 = p4 + records_wire(m.additionals).len();
    lemma_read_message_steps(pre + message_wire(m) + rest, m, p1, p2, p3, p4, p5);
}

/// What [`Message::write`] writes, [`Header::read`] followed by
/// [`Message::read`] reads back: the same header, and then the same message,
/// ending right after its octets, whatever octets stand before or after it.
pub proof fn lemma_message_write_read(m: MessageView, pre: Seq<u8>, rest: Seq<u8>)
    requires
        message_roundtrips(m),
    ensures
        read_header_at(pre + message_wire(m) + rest, pre.len() as int) == Ok::<
            (Header, int),
            BufferError,
        >((m.header, pre.len() as int + 12)),
        read_message_at(pre + message_wire(m) + rest, pre.len() as int + 12, m.header) == Ok::<
            (MessageView, int),
            MessageError,
        >((m, pre.len() + message_wire(m).len() as int)),
{
    lemma_message_header_part(m, pre, rest);
    lemma_message_sections(m, pre, rest);
}

/// Every record as text, each followed by a newline.
pub open spec fn records_text(rs: Seq<RecordView>) -> Seq<char>
    decreases rs.len(),
{
    if rs.len() == 0 {
        Seq::empty()
    } else {
        records_text(rs.drop_last()) + record_text(rs.last()) + seq!['\n']
    }
}

/// A message as text: the header line, the first question, and the three
/// record sections.
pub open spec fn message_text(m: MessageView) -> Seq<char> {
    ";; ->>HEADER<<- opcode: "@ + opcode_text(m.header.opcode) + ", rcode: "@ + rcode_text(
        m.header.rcode,
    ) + ", id: "@ + decimal(m.header.id as nat) + "\n;; QUESTION SECTION:\n;; "@ + question_text(
        m.questions[0],
    ) + "\n\n;; ANSWER SECTION:\n"@ + records_text(m.answers) + "\n;; AUTHORITY SECTION:\n"@
        + records_text(m.authorities) + "\n;; ADDITIONAL SECTION:\n"@ + records_text(m.additionals)
}

/// Adding to a message appends to exactly one section, in order, and grows
/// that section's count in the header by the number of items added, when the
/// count fits; the other sections and counts stay as they were.
pub proof fn lemma_add_appends(
    m: MessageView,
    q: QuestionView,
    r: RecordView,
    rs: Seq<RecordView>,
)
    ensures
        with_question(m, q).questions == m.questions.push(q),
        m.header.qdcount + 1 <= u16::MAX ==> with_question(m, q).header.qdcount
            == m.header.qdcount + 1,
        with_answer(m, r).answers == m.answers.push(r),
        m.header.ancount + 1 <= u16::MAX ==> with_answer(m, r).header.ancount == m.header.ancount
            + 1,
        with_authority(m, r).authorities == m.authorities.push(r),
        m.header.nscount + 1 <= u16::MAX ==> with_authority(m, r).header.nscount
            == m.header.nscount + 1,
        with_additional(m, r).additionals == m.additionals.push(r),
        m.header.arcount + 1 <= u16::MAX ==> with_additional(m, r).header.arcount
            == m.header.arcount + 1,
        with_answers(m, rs).answers == m.answers + rs,
        m.header.ancount + rs.len() <= u16::MAX ==> with_answers(m, rs).header.ancount
            == m.header.ancount + rs.len(),
        with_authorities(m, rs).authorities == m.authorities + rs,
        m.header.nscount + rs.len() <= u16::MAX ==> with_authorities(m, rs).header.nscount
            == m.header.nscount + rs.len(),
        with_additionals(m, rs).additionals == m.additionals + rs,
        m.header.arcount + rs.len() <= u16::MAX ==> with_additionals(m, rs).header.arcount
            == m.header.arcount + rs.len(),
        with_authorities(m, rs).questions == m.questions && with_authorities(m, rs).answers
            == m.answers && with_authorities(m, rs).additionals == m.additionals,
        with_authorities(m, rs).header.qdcount == m.header.qdcount && with_authorities(
            m,
            rs,
        ).header.ancount == m.header.ancount && with_authorities(m, rs).header.arcount
            == m.header.arcount && with_authorities(m, rs).header.id == m.header.id,
        with_answers(m, rs).questions == m.questions && with_answers(m, rs).authorities
            == m.authorities && with_answers(m, rs).additionals == m.additionals,
        with_answers(m, rs).header.qdcount == m.header.qdcount && with_answers(
            m,
            rs,
        ).header.nscount == m.header.nscount && with_answers(m, rs).header.arcount
            == m.header.arcount && with_answers(m, rs).header.id == m.header.id,
        with_additionals(m, rs).questions == m.questions && with_additionals(m, rs).answers
            == m.answers && with_additionals(m, rs).authorities == m.authorities,
        with_additionals(m, rs).header.qdcount == m.header.qdcount && with_additionals(
            m,
            rs,
        ).header.ancount == m.header.ancount && with_additionals(m, rs).header.nscount
            == m.header.nscount && with_additionals(m, rs).header.id == m.header.id,
{
}

/// The text of a message lists the answer records, and only they, right
/// after `;; ANSWER SECTION:`, then the authority records after `;; AUTHORITY
/// SECTION:`, then the additional records after `;; ADDITIONAL SECTION:`,
/// after a first part that starts with the header line.
pub proof fn lemma_message_text_sections(m: MessageView)
    ensures
        exists|a: Seq<char>|
            {
                &&& message_text(m) == a + "\n\n;; ANSWER SECTION:\n"@ + records_text(m.answers)
                    + "\n;; AUTHORITY SECTION:\n"@ + records_text(m.authorities)
                    + "\n;; ADDITIONAL SECTION:\n"@ + records_text(m.additionals)
                &&& a.len() >= ";; ->>HEADER<<- opcode: "@.len()
                &&& a.subrange(0, ";; ->>HEADER<<- opcode: "@.len() as int)
                    == ";; ->>HEADER<<- opcode: "@
            },
{
    let h = ";; ->>HEADER<<- opcode: "@;
    let a = h + opcode_text(m.header.opcode) + ", rcode: "@ + rcode_text(m.header.rcode)
        + ", id: "@ + decimal(m.header.id as nat) + "\n;; QUESTION SECTION:\n;; "@
        + question_text(m.questions[0]);
    assert(message_text(m) =~= a + "\n\n;; ANSWER SECTION:\n"@ + records_text(m.answers)
        + "\n;; AUTHORITY SECTION:\n"@ + records_text(m.authorities)
        + "\n;; ADDITIONAL SECTION:\n"@ + records_text(m.additionals));
    assert(a.subrange(0, h.len() as int) =~= h);
}

/// Appends every record as text, each followed by a newline.
fn push_records(s: &mut String, rs: &Vec<Record>)
    requires
        records_are_data(record_views(rs@)),
    ensures
        final(s)@ == old(s)@ + records_text(record_views(rs@)),
{
    let ghost all = record_views(rs@);
    let mut i: usize = 0;
    while i < rs.len()
        invariant
            all == record_views(rs@),
            records_are_data(all),
            i <= rs@.len(),
            s@ == old(s)@ + records_text(all.take(i as int)),
        decreases rs@.len() - i,
    {
        assert(rdata_is_data(all[i as int].data));
        let t = rs[i].to_string();
        s.append(t.as_str());
        push_char(s, '\n');
        proof {
            let p = all.take(i + 1);
            assert(p.drop_last() =~= all.take(i as int));
            assert(p.last() == all[i as int]);
            assert(s@ =~= old(s)@ + records_text(p));
        }
        i = i + 1;
    }
    assert(all.take(i as int) =~= all);
}

impl Message {
    /// The message as text: the header line, the first question, and the
    /// records of the three sections. The message must have a question.
    pub fn to_string(&self) -> (r: String)
        requires
            self@.questions.len() > 0,
            records_are_data(self@.answers),
            records_are_data(self@.authorities),
            records_are_data(self@.additionals),
        ensures
            r@ == message_text(self@),
    {
        let mut s = String::from_str(";; ->>HEADER<<- opcode: ");
        let op = self.header.opcode.to_string();
        s.append(op.as_str());
        s.append(", rcode: ");
        let rc = self.header.rcode.to_string();
        s.append(rc.as_str());
        s.append(", id: ");
        push_decimal(&mut s, self.header.id as u32);
        s.append("\n;; QUESTION SECTION:\n;; ");
        let q = self.question[0].to_string();
        s.append(q.as_str());
        s.append("\n\n;; ANSWER SECTION:\n");
        push_records(&mut s, &self.answers);
        s.append("\n;; AUTHORITY SECTION:\n");
        push_records(&mut s, &self.authorities);
        s.append("\n;; ADDITIONAL SECTION:\n");
        push_records(&mut s, &self.additionals);
        assert(s@ =~= message_text(self@));
        s
    }
}

} // verus!
