use vstd::prelude::*;

use crate::constants::{COMPRESSION_POINTER_MASK, MAX_DOMAIN_LENGTH, MAX_LABEL_LENGTH};
use crate::errors::{BufferError, ProtocolError};
use crate::text::{ascii_lower, debug_bytes, lowercase, push_char, push_debug_bytes, to_lowercase};
use crate::packing::{
    char_string_wire, read_char_string_at, read_u16_at, PackBuffer, UnpackBuffer,
};

verus! {

// ---------------------------------------------------------------------------
// Specification of labels and names
// ---------------------------------------------------------------------------

/// The canonical form of one octet of a domain name label: hyphen, digits and
/// lowercase letters stand for themselves, uppercase letters become
/// lowercase, and every other octet is refused.
pub open spec fn domain_byte(b: u8) -> Option<u8> {
    if b == 45 || (48 <= b && b <= 57) || (97 <= b && b <= 122) {
        Some(b)
    } else if 65 <= b && b <= 90 {
        Some((b + 32) as u8)
    } else {
        None
    }
}

/// The octets a label may hold: hyphen, digits and lowercase letters.
pub open spec fn is_label_byte(b: u8) -> bool {
    b == 45 || (48 <= b && b <= 57) || (97 <= b && b <= 122)
}

/// A label made from raw octets: the canonical forms of the octets up to the
/// first octet that is refused.
pub open spec fn canonical_label(b: Seq<u8>) -> Seq<u8>
    decreases b.len(),
{
    if b.len() == 0 {
        Seq::empty()
    } else {
        match domain_byte(b[0]) {
            Some(c) => seq![c] + canonical_label(b.drop_first()),
            None => Seq::empty(),
        }
    }
}

/// What every [`Label`] holds: at most 63 octets, each a label octet.
pub open spec fn label_ok(l: Seq<u8>) -> bool {
    &&& l.len() <= MAX_LABEL_LENGTH
    &&& forall|i: int| 0 <= i < l.len() ==> #[trigger] is_label_byte(l[i])
}

/// The total number of octets in the labels.
pub open spec fn labels_octets(ls: Seq<Seq<u8>>) -> nat
    decreases ls.len(),
{
    if ls.len() == 0 {
        0
    } else {
        labels_octets(ls.drop_last()) + ls.last().len()
    }
}

/// The length of a name on the wire: one length octet per label, the label
/// octets and the terminating null octet.
pub open spec fn wire_len(ls: Seq<Seq<u8>>) -> nat {
    ls.len() + 1 + labels_octets(ls)
}

/// What every [`Name`] holds: valid labels, and a length that
/// [`Name::add_label`] lets through.
pub open spec fn name_ok(ls: Seq<Seq<u8>>) -> bool {
    &&& wire_len(ls) <= MAX_DOMAIN_LENGTH
    &&& forall|i: int| 0 <= i < ls.len() ==> #[trigger] label_ok(ls[i])
}

/// Adding label `l` to a name with labels `ls`, as [`Name::add_label`] does.
pub open spec fn add_label_spec(ls: Seq<Seq<u8>>, l: Seq<u8>) -> Result<
    Seq<Seq<u8>>,
    ProtocolError,
> {
    if wire_len(ls) + l.len() + 1 > MAX_DOMAIN_LENGTH {
        Err(ProtocolError::DomainNameTooLong)
    } else if l.len() > MAX_LABEL_LENGTH {
        Err(ProtocolError::DomainNameLabelTooLong)
    } else {
        Ok(ls.push(l))
    }
}

/// Adding the labels `more`, in order, to `ls`; the first refusal ends it.
pub open spec fn add_labels_spec(ls: Seq<Seq<u8>>, more: Seq<Seq<u8>>) -> Result<
    Seq<Seq<u8>>,
    ProtocolError,
>
    decreases more.len(),
{
    if more.len() == 0 {
        Ok(ls)
    } else {
        match add_labels_spec(ls, more.drop_last()) {
            Ok(acc) => add_label_spec(acc, more.last()),
            Err(e) => Err(e),
        }
    }
}

/// The characters of a label.
pub open spec fn label_chars(l: Seq<u8>) -> Seq<char> {
    l.map_values(|b: u8| b as char)
}

/// Every label followed by a dot.
pub open spec fn dotted_labels(ls: Seq<Seq<u8>>) -> Seq<char>
    decreases ls.len(),
{
    if ls.len() == 0 {
        Seq::empty()
    } else {
        dotted_labels(ls.drop_last()) + label_chars(ls.last()).push('.')
    }
}

/// The dotted text of a name: `"."` for the root, else every label followed
/// by a dot.
pub open spec fn dotted(ls: Seq<Seq<u8>>) -> Seq<char> {
    if ls.len() == 0 {
        seq!['.']
    } else {
        dotted_labels(ls)
    }
}

// ---------------------------------------------------------------------------
// Lemmas
// ---------------------------------------------------------------------------

proof fn lemma_canonical_label_ok(b: Seq<u8>)
    ensures
        canonical_label(b).len() <= b.len(),
        forall|i: int|
            0 <= i < canonical_label(b).len() ==> #[trigger] is_label_byte(canonical_label(b)[i]),
    decreases b.len(),
{
    if b.len() > 0 {
        lemma_canonical_label_ok(b.drop_first());
        match domain_byte(b[0]) {
            Some(c) => {
                let r = canonical_label(b);
                assert forall|i: int| 0 <= i < r.len() implies #[trigger] is_label_byte(r[i]) by {
                    if i > 0 {
                        assert(r[i] == canonical_label(b.drop_first())[i - 1]);
                    }
                }
            },
            None => {},
        }
    }
}

/// A label that holds only label octets is its own canonical form.
pub proof fn lemma_canonical_label_fixed(l: Seq<u8>)
    requires
        forall|i: int| 0 <= i < l.len() ==> #[trigger] is_label_byte(l[i]),
    ensures
        canonical_label(l) == l,
    decreases l.len(),
{
    if l.len() > 0 {
        assert(is_label_byte(l[0]));
        assert forall|i: int| 0 <= i < l.drop_first().len() implies #[trigger] is_label_byte(
            l.drop_first()[i],
        ) by {
            assert(is_label_byte(l[i + 1]));
        }
        lemma_canonical_label_fixed(l.drop_first());
        assert(seq![l[0]] + l.drop_first() =~= l);
    }
}

pub proof fn lemma_labels_octets_push(ls: Seq<Seq<u8>>, l: Seq<u8>)
    ensures
        labels_octets(ls.push(l)) == labels_octets(ls) + l.len(),
{
    assert(ls.push(l).drop_last() =~= ls);
}

/// The labels of a prefix of `ls` hold no more octets than `ls` does.
proof fn lemma_labels_octets_prefix(ls: Seq<Seq<u8>>, k: int)
    requires
        0 <= k <= ls.len(),
    ensures
        labels_octets(ls.take(k)) <= labels_octets(ls),
        labels_octets(ls.take(k)) + labels_octets(ls.skip(k)) == labels_octets(ls),
    decreases ls.len(),
{
    if k == ls.len() {
        assert(ls.take(k) =~= ls);
        assert(ls.skip(k) =~= Seq::<Seq<u8>>::empty());
    } else {
        lemma_labels_octets_prefix(ls.drop_last(), k);
        assert(ls.drop_last().take(k) =~= ls.take(k));
        assert(ls.skip(k).drop_last() =~= ls.drop_last().skip(k));
        assert(ls.skip(k).last() == ls.last());
    }
}

/// Adding the labels of `more` one by one succeeds whenever the whole name
/// stays short enough, and then gives `ls + more`.
proof fn lemma_add_labels_ok(ls: Seq<Seq<u8>>, more: Seq<Seq<u8>>)
    requires
        wire_len(ls + more) <= MAX_DOMAIN_LENGTH,
        forall|i: int| 0 <= i < more.len() ==> #[trigger] more[i].len() <= MAX_LABEL_LENGTH,
    ensures
        add_labels_spec(ls, more) == Ok::<Seq<Seq<u8>>, ProtocolError>(ls + more),
    decreases more.len(),
{
    if more.len() > 0 {
        let all = ls + more;
        let init = ls + more.drop_last();
        assert(all.drop_last() =~= init);
        assert(all.last() == more.last());
        lemma_labels_octets_push(init, more.last());
        assert(init.push(more.last()) =~= all);
        assert forall|i: int| 0 <= i < more.drop_last().len() implies #[trigger] more.drop_last()[
            i
        ].len() <= MAX_LABEL_LENGTH by {
            assert(more[i].len() <= MAX_LABEL_LENGTH);
        }
        lemma_add_labels_ok(ls, more.drop_last());
        assert(more[more.len() - 1].len() <= MAX_LABEL_LENGTH);
    } else {
        assert(ls + more =~= ls);
    }
}

// ---------------------------------------------------------------------------
// Label
// ---------------------------------------------------------------------------

/// Returns the canonical form of a domain name octet, or `None` where the
/// octet may not stand in a label.
fn validate_domain_name_byte(byte: u8) -> (r: Option<u8>)
    ensures
        r == domain_byte(byte),
{
    match byte {
        45 => Some(byte),
        48..=57 => Some(byte),
        65..=90 => Some(byte + 32),
        97..=122 => Some(byte),
        _ => None,
    }
}

/// One label of a domain name.
#[derive(Debug, PartialEq, Eq, Hash)]
pub struct Label(Vec<u8>);

impl View for Label {
    type V = Seq<u8>;

    closed spec fn view(&self) -> Seq<u8> {
        self.0@
    }
}

impl Label {
    /// Every label satisfies [`label_ok`].
    #[verifier::type_invariant]
    pub open spec fn inv(&self) -> bool {
        label_ok(self@)
    }

    /// An empty label.
    pub fn new() -> (r: Self)
        ensures
            r@ == Seq::<u8>::empty(),
    {
        Label(Vec::new())
    }

    /// Builds a label from raw octets: refuses more than 63 octets, and keeps
    /// the canonical forms of the octets up to the first refused octet.
    pub fn try_from(bytes: &[u8]) -> (r: Result<Label, ProtocolError>)
        ensures
            bytes@.len() > MAX_LABEL_LENGTH ==> r == Err::<Label, ProtocolError>(
                ProtocolError::DomainNameLabelTooLong,
            ),
            bytes@.len() <= MAX_LABEL_LENGTH ==> (r matches Ok(l) && l@ == canonical_label(bytes@)),
    {
        if bytes.len() > MAX_LABEL_LENGTH as usize {
            return Err(ProtocolError::DomainNameLabelTooLong);
        }
        let mut out: Vec<u8> = Vec::new();
        let mut i: usize = 0;
        assert(bytes@.skip(0) =~= bytes@);
        assert(out@ + canonical_label(bytes@) =~= canonical_label(bytes@));
        while i < bytes.len()
            invariant_except_break
                i <= bytes@.len(),
                canonical_label(bytes@) == out@ + canonical_label(bytes@.skip(i as int)),
            ensures
                canonical_label(bytes@) == out@,
            decreases bytes@.len() - i,
        {
            let ghost s = bytes@.skip(i as int);
            assert(s[0] == bytes@[i as int]);
            match validate_domain_name_byte(bytes[i]) {
                Some(c) => {
                    assert(s.drop_first() =~= bytes@.skip(i + 1));
                    out.push(c);
                    assert(out@ + canonical_label(bytes@.skip(i + 1)) =~= out@.drop_last() + (
                    seq![c] + canonical_label(s.drop_first())));
                },
                None => {
                    assert(out@ + Seq::<u8>::empty() =~= out@);
                    break ;
                },
            }
            i = i + 1;
        }
        proof {
            if i == bytes.len() {
                assert(bytes@.skip(i as int) =~= Seq::<u8>::empty());
                assert(out@ + Seq::<u8>::empty() =~= out@);
            }
            lemma_canonical_label_ok(bytes@);
        }
        Ok(Label(out))
    }

    /// A copy of the label's octets.
    pub fn bytes(&self) -> (r: Vec<u8>)
        ensures
            r@ == self@,
            label_ok(self@),
    {
        proof {
            use_type_invariant(self);
        }
        let mut out: Vec<u8> = Vec::new();
        let mut i: usize = 0;
        while i < self.0.len()
            invariant
                i <= self.0@.len(),
                out@ == self.0@.subrange(0, i as int),
            decreases self.0@.len() - i,
        {
            out.push(self.0[i]);
            i = i + 1;
            assert(out@ =~= self.0@.subrange(0, i as int));
        }
        assert(self.0@.subrange(0, i as int) =~= self.0@);
        out
    }

    /// The number of octets in the label.
    pub fn len(&self) -> (r: usize)
        ensures
            r == self@.len(),
            label_ok(self@),
    {
        proof {
            use_type_invariant(self);
        }
        self.0.len()
    }

    /// The label as text.
    pub fn to_string(&self) -> (r: String)
        ensures
            r@ == label_chars(self@),
    {
        let mut s = String::new();
        let mut i: usize = 0;
        while i < self.0.len()
            invariant
                i <= self.0@.len(),
                s@ == label_chars(self.0@.subrange(0, i as int)),
            decreases self.0@.len() - i,
        {
            push_char(&mut s, self.0[i] as char);
            i = i + 1;
            assert(label_chars(self.0@.subrange(0, i as int)) =~= label_chars(
                self.0@.subrange(0, i - 1),
            ).push(self.0@[i - 1] as char));
        }
        assert(self.0@.subrange(0, i as int) =~= self.0@);
        s
    }
}

impl Clone for Label {
    fn clone(&self) -> (r: Self)
        ensures
            r@ == self@,
    {
        proof {
            use_type_invariant(self);
        }
        Label(self.bytes())
    }
}

impl Default for Label {
    fn default() -> (r: Self)
        ensures
            r@ == Seq::<u8>::empty(),
    {
        Label::new()
    }
}

// ---------------------------------------------------------------------------
// Name
// ---------------------------------------------------------------------------

/// A domain name: a sequence of labels, read from the leftmost label to the
/// rightmost one. The root name has no labels.
#[derive(Debug, PartialEq)]
pub struct Name {
    labels: Vec<Label>,
}

/// The octets of each label.
pub open spec fn label_views(v: Seq<Label>) -> Seq<Seq<u8>> {
    v.map_values(|l: Label| l@)
}

impl View for Name {
    type V = Seq<Seq<u8>>;

    closed spec fn view(&self) -> Seq<Seq<u8>> {
        label_views(self.labels@)
    }
}

impl Default for Name {
    /// The root name.
    fn default() -> (r: Self)
        ensures
            r@ == Seq::<Seq<u8>>::empty(),
    {
        let r = Name { labels: Vec::new() };
        assert(r@ =~= Seq::<Seq<u8>>::empty());
        r
    }
}

impl Clone for Name {
    fn clone(&self) -> (r: Self)
        ensures
            r@ == self@,
    {
        proof {
            use_type_invariant(self);
        }
        let mut labels: Vec<Label> = Vec::new();
        let mut i: usize = 0;
        while i < self.labels.len()
            invariant
                i <= self.labels@.len(),
                label_views(labels@) == self@.take(i as int),
            decreases self.labels@.len() - i,
        {
            let c = self.labels[i].clone();
            let ghost prev = labels@;
            labels.push(c);
            proof {
                assert(label_views(prev).len() == prev.len());
                assert(prev.len() == i);
                assert(labels@ == prev.push(c));
                assert(labels@.len() == i + 1);
                assert(label_views(labels@).len() == i + 1);
                assert forall|j: int| 0 <= j < i + 1 implies label_views(labels@)[j]
                    == #[trigger] self@.take(i + 1)[j] by {
                    if j < i {
                        assert(label_views(prev)[j] == self@.take(i as int)[j]);
                    }
                }
            }
            i = i + 1;
            assert(label_views(labels@) =~= self@.take(i as int));
        }
        assert(self@.take(i as int) =~= self@);
        Name { labels }
    }
}

impl Name {
    /// Every name satisfies [`name_ok`].
    #[verifier::type_invariant]
    pub open spec fn inv(&self) -> bool {
        name_ok(self@)
    }

    /// Adds a label to the domain. This validates the following two conditions:
    ///
    /// - The total length of the domain does not exceed the maximum allowed
    ///   length [`MAX_DOMAIN_LENGTH`]
    /// - The length of the label does not exceed the maximum allowed label
    ///   length [`MAX_LABEL_LENGTH`]
    pub fn add_label(&mut self, label: Label) -> (r: Result<(), ProtocolError>)
        ensures
            match add_label_spec(old(self)@, label@) {
                Ok(ls) => r is Ok && final(self)@ == ls,
                Err(e) => r == Err::<(), ProtocolError>(e) && final(self)@ == old(self)@,
            },
    {
        proof {
            use_type_invariant(&*self);
            use_type_invariant(&label);
        }
        if self.len() + label.len() + 1 > MAX_DOMAIN_LENGTH as usize {
            return Err(ProtocolError::DomainNameTooLong);
        }
        if label.len() > MAX_LABEL_LENGTH as usize {
            return Err(ProtocolError::DomainNameLabelTooLong);
        }
        let ghost old_view = self@;
        let ghost l = label@;
        let mut labels = Vec::new();
        std::mem::swap(&mut labels, &mut self.labels);
        labels.push(label);
        proof {
            assert(label_views(labels@) =~= old_view.push(l));
            lemma_labels_octets_push(old_view, l);
        }
        self.labels = labels;
        Ok(())
    }

    /// Returns a reference to the underlying vector of labels with default
    /// ordering.
    pub fn labels(&self) -> (r: &Vec<Label>)
        ensures
            label_views(r@) == self@,
    {
        &self.labels
    }

    /// Returns the number of labels without the root "." label.
    pub fn num_labels(&self) -> (r: usize)
        ensures
            r == self@.len(),
    {
        self.labels.len()
    }

    /// Return the number of labels with the root "." label.
    pub fn num_labels_root(&self) -> (r: usize)
        ensures
            r == self@.len() + 1,
    {
        proof {
            use_type_invariant(self);
        }
        self.labels.len() + 1
    }

    /// Returns the total length (in bytes) required in the wire format. This
    /// includes the length octets between labels and the terminating null byte
    /// (or root ".").
    pub fn len(&self) -> (r: usize)
        ensures
            r == wire_len(self@),
            name_ok(self@),
    {
        proof {
            use_type_invariant(self);
        }
        let dots = self.num_labels_root();
        let mut labels: usize = 0;
        let mut i: usize = 0;
        while i < self.labels.len()
            invariant
                i <= self@.len(),
                self@.len() == self.labels@.len(),
                name_ok(self@),
                labels == labels_octets(self@.take(i as int)),
            decreases self@.len() - i,
        {
            proof {
                lemma_labels_octets_prefix(self@, i + 1);
                assert(self@.take(i + 1).drop_last() =~= self@.take(i as int));
            }
            labels = labels + self.labels[i].len();
            i = i + 1;
        }
        assert(self@.take(i as int) =~= self@);
        dots + labels
    }

    /// Returns if the domain name only consists if the root "." label.
    pub fn is_root(&self) -> (r: bool)
        ensures
            r == (self@.len() == 0),
    {
        self.labels.len() == 0
    }
}

impl Name {
    /// Return an iterator over the labels in the domain name.
    pub fn iter(&self) -> (r: NameIterator<'_>)
        ensures
            r.names() == self@,
            r.front() == 0,
            r.back() == self@.len(),
    {
        NameIterator { name: self, index_back: self.num_labels(), index: 0 }
    }

    /// Adds the labels of `other`, in order, with [`Name::add_label`]; the
    /// first refusal ends it.
    pub fn append_name(&mut self, other: &Name) -> (r: Result<(), ProtocolError>)
        ensures
            match add_labels_spec(old(self)@, other@) {
                Ok(ls) => r is Ok && final(self)@ == ls,
                Err(e) => r == Err::<(), ProtocolError>(e),
            },
    {
        let ghost start = self@;
        let ghost views = other@;
        let mut i: usize = 0;
        assert(views.take(0) =~= Seq::<Seq<u8>>::empty());
        while i < other.labels.len()
            invariant
                i <= other.labels@.len(),
                start == old(self)@,
                views == other@,
                views == label_views(other.labels@),
                add_labels_spec(start, views.take(i as int)) == Ok::<Seq<Seq<u8>>, ProtocolError>(
                    self@,
                ),
            decreases other.labels@.len() - i,
        {
            let l = other.labels[i].clone();
            let ghost before = self@;
            assert(views.take(i + 1).drop_last() =~= views.take(i as int));
            assert(views.take(i + 1).last() == l@);
            match self.add_label(l) {
                Ok(()) => {},
                Err(e) => {
                    proof {
                        assert(add_label_spec(before, l@) == Err::<Seq<Seq<u8>>, ProtocolError>(e));
                        assert(add_labels_spec(start, views.take(i + 1)) == Err::<
                            Seq<Seq<u8>>,
                            ProtocolError,
                        >(e));
                        assert(views.len() == other.labels@.len());
                        lemma_add_labels_err_prefix(start, views, i + 1);
                        assert(add_labels_spec(old(self)@, other@) == Err::<
                            Seq<Seq<u8>>,
                            ProtocolError,
                        >(e));
                    }
                    return Err(e);
                },
            }
            i = i + 1;
        }
        assert(views.take(i as int) =~= views);
        Ok(())
    }

    /// Builds a name from labels, adding them in order with
    /// [`Name::add_label`].
    pub fn try_from_labels(value: &[Label]) -> (r: Result<Name, ProtocolError>)
        ensures
            match add_labels_spec(Seq::empty(), label_views(value@)) {
                Ok(ls) => r matches Ok(n) && n@ == ls,
                Err(e) => r == Err::<Name, ProtocolError>(e),
            },
    {
        let mut name = Name::default();
        let ghost views = label_views(value@);
        let mut i: usize = 0;
        assert(views.take(0) =~= Seq::<Seq<u8>>::empty());
        while i < value.len()
            invariant
                i <= value@.len(),
                views == label_views(value@),
                add_labels_spec(Seq::empty(), views.take(i as int)) == Ok::<
                    Seq<Seq<u8>>,
                    ProtocolError,
                >(name@),
            decreases value@.len() - i,
        {
            let l = value[i].clone();
            let ghost before = name@;
            assert(views.take(i + 1).drop_last() =~= views.take(i as int));
            assert(views.take(i + 1).last() == l@);
            match name.add_label(l) {
                Ok(()) => {},
                Err(e) => {
                    proof {
                        lemma_add_labels_err_prefix(Seq::empty(), views, i + 1);
                        assert(views.take(value@.len() as int) =~= views);
                    }
                    return Err(e);
                },
            }
            i = i + 1;
        }
        assert(views.take(i as int) =~= views);
        Ok(name)
    }

    /// Returns the domain name as fragments. For example `www.example.com`
    /// returns `vec![com, example.com, www.example.com]`.
    pub fn fragments(&self) -> (r: Vec<Name>)
        ensures
            r@.len() == self@.len(),
            forall|i: int|
                0 <= i < r@.len() ==> #[trigger] r@[i]@ == self@.subrange(
                    self@.len() - i - 1,
                    self@.len() as int,
                ),
    {
        proof {
            use_type_invariant(self);
        }
        let mut fragments: Vec<Name> = Vec::new();
        let labels = self.labels();
        let n = labels.len();
        let mut i: usize = 0;
        while i < n
            invariant
                n == self@.len(),
                label_views(labels@) == self@,
                name_ok(self@),
                i <= n,
                fragments@.len() == i,
                forall|j: int|
                    0 <= j < i ==> #[trigger] fragments@[j]@ == self@.subrange(
                        n - j - 1,
                        n as int,
                    ),
            decreases n - i,
        {
            let parts = vstd::slice::slice_subrange(labels.as_slice(), n - i - 1, n);
            proof {
                let suffix = self@.subrange(n - i - 1, n as int);
                assert(label_views(parts@) =~= suffix);
                assert(suffix =~= self@.skip(n - i - 1));
                lemma_labels_octets_prefix(self@, n - i - 1);
                assert(Seq::<Seq<u8>>::empty() + suffix =~= suffix);
                assert forall|k: int| 0 <= k < suffix.len() implies #[trigger] suffix[k].len()
                    <= MAX_LABEL_LENGTH by {
                    assert(label_ok(self@[n - i - 1 + k]));
                }
                lemma_add_labels_ok(Seq::empty(), suffix);
            }
            let name = match Self::try_from_labels(parts) {
                Ok(name) => name,
                Err(_) => Name::default(),
            };
            fragments.push(name);
            i = i + 1;
        }
        fragments
    }

    /// Returns the labels in reverse order. This is helpful when traversing a
    /// DNS tree (e.g. cache).
    pub fn labels_rev(&self) -> (r: Vec<Label>)
        ensures
            label_views(r@) == self@.reverse(),
    {
        let mut out: Vec<Label> = Vec::new();
        let mut it = self.iter();
        loop
            invariant
                it.names() == self@,
                it.front() == 0,
                0 <= it.back() <= self@.len(),
                label_views(out@) == self@.subrange(it.back(), self@.len() as int).reverse(),
            ensures
                label_views(out@) == self@.subrange(0, self@.len() as int).reverse(),
            decreases it.back(),
        {
            let ghost prev = label_views(out@);
            match it.next_back() {
                Some(l) => {
                    out.push(l.clone());
                    proof {
                        let b = it.back();
                        assert(label_views(out@) =~= prev.push(self@[b]));
                        assert(self@.subrange(b, self@.len() as int).reverse() =~= self@.subrange(
                            b + 1,
                            self@.len() as int,
                        ).reverse().push(self@[b]));
                    }
                },
                None => {
                    break ;
                },
            }
        }
        assert(self@.subrange(0, self@.len() as int) =~= self@);
        out
    }

    /// Returns the domain as a dotted string: `"."` for the root, else every
    /// label followed by a dot.
    pub fn as_dotted_string(&self) -> (r: String)
        ensures
            r@ == dotted(self@),
    {
        if self.is_root() {
            let mut s = String::new();
            push_char(&mut s, '.');
            assert(s@ =~= seq!['.']);
            return s;
        }
        let mut s = String::new();
        let mut it = self.iter();
        loop
            invariant
                it.names() == self@,
                it.back() == self@.len(),
                self@.len() > 0,
                0 <= it.front() <= self@.len(),
                s@ == dotted_labels(self@.take(it.front())),
            ensures
                s@ == dotted_labels(self@.take(self@.len() as int)),
            decreases self@.len() - it.front(),
        {
            let ghost k = it.front();
            match it.next() {
                Some(l) => {
                    let label = l.to_string();
                    s.append(label.as_str());
                    push_char(&mut s, '.');
                    proof {
                        assert(self@.take(k + 1).drop_last() =~= self@.take(k));
                        assert(self@.take(k + 1).last() == self@[k]);
                    }
                },
                None => {
                    break ;
                },
            }
        }
        assert(self@.take(self@.len() as int) =~= self@);
        s
    }
}

/// Adding labels stops at the first refusal: when a prefix of `more` is
/// refused, so is `more`.
proof fn lemma_add_labels_err_prefix(ls: Seq<Seq<u8>>, more: Seq<Seq<u8>>, k: int)
    requires
        0 <= k <= more.len(),
        add_labels_spec(ls, more.take(k)) is Err,
    ensures
        add_labels_spec(ls, more) == add_labels_spec(ls, more.take(k)),
    decreases more.len(),
{
    if k == more.len() {
        assert(more.take(k) =~= more);
    } else {
        assert(more.drop_last().take(k) =~= more.take(k));
        lemma_add_labels_err_prefix(ls, more.drop_last(), k);
    }
}

/// An iterator over the labels of a [`Name`], from the front with
/// [`NameIterator::next`] and from the back with [`NameIterator::next_back`].
/// The two ends meet: every label is given once at most, and once they have
/// met both ends give nothing more.
pub struct NameIterator<'a> {
    name: &'a Name,
    index_back: usize,
    index: usize,
}

impl<'a> NameIterator<'a> {
    #[verifier::type_invariant]
    spec fn inv(&self) -> bool {
        &&& self.index <= self.index_back
        &&& self.index_back <= self.name.labels@.len()
    }

    /// The labels of the name being walked.
    pub closed spec fn names(&self) -> Seq<Seq<u8>> {
        self.name@
    }

    /// The number of labels taken from the front.
    pub closed spec fn front(&self) -> int {
        self.index as int
    }

    /// The number of labels not yet taken from the back.
    pub closed spec fn back(&self) -> int {
        self.index_back as int
    }

    /// The next label from the front, unless the two ends have met.
    pub fn next(&mut self) -> (r: Option<&'a Label>)
        ensures
            final(self).names() == old(self).names(),
            final(self).back() == old(self).back(),
            0 <= old(self).front() <= old(self).back() <= old(self).names().len(),
            old(self).front() == old(self).back() ==> r is None && final(self).front()
                == old(self).front(),
            old(self).front() < old(self).back() ==> (r matches Some(l) && l@ == old(
                self,
            ).names()[old(self).front()] && final(self).front() == old(self).front() + 1),
    {
        proof {
            use_type_invariant(&*self);
        }
        if self.index >= self.index_back {
            return None;
        }
        let name: &'a Name = self.name;
        let current_label = &name.labels[self.index];
        self.index = self.index + 1;
        Some(current_label)
    }

    /// The next label from the back, unless the two ends have met.
    pub fn next_back(&mut self) -> (r: Option<&'a Label>)
        ensures
            final(self).names() == old(self).names(),
            final(self).front() == old(self).front(),
            0 <= old(self).front() <= old(self).back() <= old(self).names().len(),
            old(self).back() == old(self).front() ==> r is None && final(self).back()
                == old(self).back(),
            old(self).back() > old(self).front() ==> (r matches Some(l) && l@ == old(self).names()[old(self).back()
                - 1] && final(self).back() == old(self).back() - 1),
    {
        proof {
            use_type_invariant(&*self);
        }
        if self.index_back <= self.index {
            return None;
        }
        let name: &'a Name = self.name;
        let current_label = &name.labels[self.index_back - 1];
        self.index_back = self.index_back - 1;
        Some(current_label)
    }
}

// ---------------------------------------------------------------------------
// Names from text
// ---------------------------------------------------------------------------

/// The octets of ASCII text.
pub open spec fn ascii_bytes(s: Seq<char>) -> Seq<u8> {
    s.map_values(|c: char| c as u8)
}

/// Splitting octets at every dot (`.`), as `str::split('.')` does: `n` dots
/// give `n + 1` parts, some of which may be empty.
pub open spec fn split_dots(b: Seq<u8>) -> Seq<Seq<u8>>
    decreases b.len(),
{
    if b.len() == 0 {
        seq![Seq::<u8>::empty()]
    } else {
        let parts = split_dots(b.drop_last());
        if b.last() == 46 {
            parts.push(Seq::empty())
        } else {
            parts.update(parts.len() - 1, parts.last().push(b.last()))
        }
    }
}

/// Adding one dot-separated part to the labels read so far: empty parts are
/// skipped, others become labels.
pub open spec fn add_part(acc: Result<Seq<Seq<u8>>, ProtocolError>, part: Seq<u8>) -> Result<
    Seq<Seq<u8>>,
    ProtocolError,
> {
    match acc {
        Err(e) => Err(e),
        Ok(ls) => if part.len() == 0 {
            Ok(ls)
        } else if part.len() > MAX_LABEL_LENGTH {
            Err(ProtocolError::DomainNameLabelTooLong)
        } else {
            add_label_spec(ls, canonical_label(part))
        },
    }
}

/// Adding the parts in order to the root name.
pub open spec fn add_parts(parts: Seq<Seq<u8>>) -> Result<Seq<Seq<u8>>, ProtocolError>
    decreases parts.len(),
{
    if parts.len() == 0 {
        Ok(Seq::empty())
    } else {
        add_part(add_parts(parts.drop_last()), parts.last())
    }
}

/// The labels of a name written as text: `"."` is the root, text with a
/// non-ASCII character is refused, and otherwise every non-empty
/// dot-separated part becomes a label.
pub open spec fn name_from_text(s: Seq<char>) -> Result<Seq<Seq<u8>>, ProtocolError> {
    if s == seq!['.'] {
        Ok(Seq::empty())
    } else if !vstd::utf8::is_ascii_chars(s) {
        Err(ProtocolError::InvalidOmainNameLabelByte)
    } else {
        add_parts(split_dots(ascii_bytes(s)))
    }
}

proof fn lemma_split_dots_nonempty(b: Seq<u8>)
    ensures
        split_dots(b).len() >= 1,
    decreases b.len(),
{
    if b.len() > 0 {
        lemma_split_dots_nonempty(b.drop_last());
    }
}

/// Once the parts finished before position `i` are refused, the whole text
/// is refused with the same error.
proof fn lemma_add_parts_err(b: Seq<u8>, i: int, e: ProtocolError)
    requires
        0 <= i <= b.len(),
        add_parts(split_dots(b.take(i)).drop_last()) == Err::<Seq<Seq<u8>>, ProtocolError>(e),
    ensures
        add_parts(split_dots(b)) == Err::<Seq<Seq<u8>>, ProtocolError>(e),
    decreases b.len() - i,
{
    lemma_split_dots_nonempty(b.take(i));
    if i == b.len() {
        assert(b.take(i) =~= b);
        let parts = split_dots(b);
        assert(parts.drop_last().push(parts.last()) =~= parts);
    } else {
        let old_parts = split_dots(b.take(i));
        let new_parts = split_dots(b.take(i + 1));
        assert(b.take(i + 1).drop_last() =~= b.take(i));
        assert(b.take(i + 1).last() == b[i]);
        if b[i] == 46 {
            assert(new_parts.drop_last() =~= old_parts);
            assert(old_parts.drop_last().push(old_parts.last()) =~= old_parts);
        } else {
            assert(new_parts.drop_last() =~= old_parts.drop_last());
        }
        lemma_add_parts_err(b, i + 1, e);
    }
}

/// Appending octets without a dot extends the last part.
proof fn lemma_split_dots_extend(a: Seq<u8>, c: Seq<u8>)
    requires
        forall|i: int| 0 <= i < c.len() ==> #[trigger] c[i] != 46,
    ensures
        split_dots(a + c) == split_dots(a).update(
            split_dots(a).len() - 1,
            split_dots(a).last() + c,
        ),
        split_dots(a + c).len() == split_dots(a).len(),
    decreases c.len(),
{
    lemma_split_dots_nonempty(a);
    if c.len() == 0 {
        assert(a + c =~= a);
        assert(split_dots(a).last() + c =~= split_dots(a).last());
        assert(split_dots(a).update(split_dots(a).len() - 1, split_dots(a).last())
            =~= split_dots(a));
    } else {
        let init = c.drop_last();
        assert forall|i: int| 0 <= i < init.len() implies #[trigger] init[i] != 46 by {
            assert(init[i] == c[i]);
        }
        lemma_split_dots_extend(a, init);
        assert((a + c).drop_last() =~= a + init);
        assert((a + c).last() == c.last());
        assert(c.last() != 46);
        let parts = split_dots(a);
        let n = parts.len() - 1;
        let parts2 = split_dots(a + init);
        assert(parts2.len() == parts.len());
        assert(parts2.last() == parts.last() + init);
        assert((parts.last() + init).push(c.last()) =~= parts.last() + c);
        assert(split_dots(a + c) == parts2.update(n, parts2.last().push(c.last())));
        assert(split_dots(a + c) =~= parts.update(n, parts.last() + c));
    }
}

/// The octets of the dotted labels.
proof fn lemma_dotted_labels_bytes(ls: Seq<Seq<u8>>)
    requires
        forall|i: int| 0 <= i < ls.len() ==> #[trigger] label_ok(ls[i]),
    ensures
        split_dots(ascii_bytes(dotted_labels(ls))) == ls.push(Seq::<u8>::empty()),
        vstd::utf8::is_ascii_chars(dotted_labels(ls)),
    decreases ls.len(),
{
    if ls.len() == 0 {
        assert(dotted_labels(ls) =~= Seq::<char>::empty());
        assert(ascii_bytes(Seq::<char>::empty()) =~= Seq::<u8>::empty());
        assert(ls.push(Seq::<u8>::empty()) =~= seq![Seq::<u8>::empty()]);
    } else {
        let init = ls.drop_last();
        let l = ls.last();
        assert forall|i: int| 0 <= i < init.len() implies #[trigger] label_ok(init[i]) by {
            assert(init[i] == ls[i]);
        }
        lemma_dotted_labels_bytes(init);
        assert(label_ok(ls[ls.len() - 1]));
        let d = dotted_labels(init);
        assert(dotted_labels(ls) == d + label_chars(l).push('.'));
        assert(ascii_bytes(label_chars(l)) =~= l) by {
            assert forall|i: int| 0 <= i < l.len() implies ascii_bytes(label_chars(l))[i] == l[i] by {
                assert(is_label_byte(l[i]));
            }
        }
        assert(ascii_bytes(dotted_labels(ls)) =~= ascii_bytes(d) + l + seq![46u8]);
        assert forall|i: int| 0 <= i < l.len() implies #[trigger] l[i] != 46 by {
            assert(is_label_byte(l[i]));
        }
        lemma_split_dots_extend(ascii_bytes(d), l);
        let parts = init.push(Seq::<u8>::empty());
        assert(parts.update(parts.len() - 1, parts.last() + l) =~= ls) by {
            assert(Seq::<u8>::empty() + l =~= l);
        }
        let b = ascii_bytes(d) + l + seq![46u8];
        assert(b.drop_last() =~= ascii_bytes(d) + l);
        assert(split_dots(b) == split_dots(ascii_bytes(d) + l).push(Seq::<u8>::empty()));
        assert forall|i: int| 0 <= i < dotted_labels(ls).len() implies dotted_labels(ls)[i] < 128 by {
            if i >= d.len() && i < d.len() + l.len() {
                assert(is_label_byte(l[i - d.len()]));
            }
        }
    }
}

/// Adding the labels of a name as text parts gives the name back.
proof fn lemma_add_parts_labels(ls: Seq<Seq<u8>>)
    requires
        name_roundtrips(ls),
    ensures
        add_parts(ls) == Ok::<Seq<Seq<u8>>, ProtocolError>(ls),
    decreases ls.len(),
{
    if ls.len() > 0 {
        let init = ls.drop_last();
        let l = ls.last();
        lemma_labels_octets_push(init, l);
        assert(init.push(l) =~= ls);
        assert forall|i: int| 0 <= i < init.len() implies #[trigger] init[i].len() > 0 && label_ok(
            init[i],
        ) by {
            assert(init[i] == ls[i]);
            assert(ls[i].len() > 0);
            assert(label_ok(ls[i]));
        }
        assert(name_roundtrips(init));
        lemma_add_parts_labels(init);
        assert(label_ok(ls[ls.len() - 1]) && ls[ls.len() - 1].len() > 0);
        lemma_canonical_label_fixed(l);
        assert(add_label_spec(init, l) == Ok::<Seq<Seq<u8>>, ProtocolError>(ls));
        assert(add_parts(ls) == add_part(add_parts(init), l));
    } else {
        assert(ls =~= Seq::<Seq<u8>>::empty());
    }
}

/// The dotted text of a name reads back as the same name: for a name whose
/// labels are non-empty and which takes at most 255 octets, parsing
/// [`dotted`] of it gives its labels again.
pub proof fn lemma_dotted_text_roundtrip(ls: Seq<Seq<u8>>)
    requires
        name_roundtrips(ls),
    ensures
        name_from_text(dotted(ls)) == Ok::<Seq<Seq<u8>>, ProtocolError>(ls),
{
    if ls.len() > 0 {
        lemma_dotted_labels_bytes(ls);
        assert(dotted(ls) != seq!['.']) by {
            let l = ls.last();
            assert(ls[ls.len() - 1].len() > 0);
            let d = dotted_labels(ls.drop_last());
            assert(dotted_labels(ls) == d + label_chars(l).push('.'));
            assert(dotted_labels(ls).len() >= 2);
        }
        lemma_add_parts_labels(ls);
        let parts = ls.push(Seq::<u8>::empty());
        assert(parts.drop_last() =~= ls);
        assert(add_parts(parts) == add_part(add_parts(ls), Seq::<u8>::empty()));
    } else {
        assert(ls =~= Seq::<Seq<u8>>::empty());
    }
}

/// The dotted labels hold no ASCII uppercase letter.
proof fn lemma_dotted_labels_lower(ls: Seq<Seq<u8>>)
    requires
        forall|i: int| 0 <= i < ls.len() ==> #[trigger] label_ok(ls[i]),
    ensures
        forall|i: int|
            0 <= i < dotted_labels(ls).len() ==> !('A' <= #[trigger] dotted_labels(ls)[i]
                && dotted_labels(ls)[i] <= 'Z'),
    decreases ls.len(),
{
    if ls.len() > 0 {
        let init = ls.drop_last();
        let l = ls.last();
        assert forall|i: int| 0 <= i < init.len() implies #[trigger] label_ok(init[i]) by {
            assert(init[i] == ls[i]);
        }
        lemma_dotted_labels_lower(init);
        assert(label_ok(ls[ls.len() - 1]));
        let d = dotted_labels(init);
        let all = dotted_labels(ls);
        assert(all == d + label_chars(l).push('.'));
        assert forall|i: int| 0 <= i < all.len() implies !('A' <= #[trigger] all[i] && all[i]
            <= 'Z') by {
            if i < d.len() {
                assert(all[i] == d[i]);
            } else if i < d.len() + l.len() {
                assert(all[i] == l[i - d.len()] as char);
                assert(is_label_byte(l[i - d.len()]));
            }
        }
    }
}

/// Parsing a name ignores the case of ASCII text: the text and its
/// lowercase form, which is ASCII too, give the same result.
pub proof fn lemma_name_text_case_insensitive(s: Seq<char>)
    requires
        vstd::utf8::is_ascii_chars(s),
    ensures
        vstd::utf8::is_ascii_chars(ascii_lower(s)),
        name_from_text(ascii_lower(ascii_lower(s))) == name_from_text(ascii_lower(s)),
{
    crate::text::lemma_ascii_lower_idempotent(s);
}

/// The dotted text of a name is ASCII and parses back, through
/// [`Name::try_from`], to the name: for a name whose labels are non-empty and
/// which takes at most 255 octets, lowercasing changes nothing and
/// [`name_from_text`] gives the labels again.
pub proof fn lemma_dotted_text_parses_back(ls: Seq<Seq<u8>>)
    requires
        name_roundtrips(ls),
    ensures
        vstd::utf8::is_ascii_chars(dotted(ls)),
        name_from_text(ascii_lower(dotted(ls))) == Ok::<Seq<Seq<u8>>, ProtocolError>(ls),
{
    lemma_dotted_text_roundtrip(ls);
    if ls.len() > 0 {
        lemma_dotted_labels_bytes(ls);
        lemma_dotted_labels_lower(ls);
        crate::text::lemma_ascii_lower_fixed(dotted(ls));
    } else {
        assert(dotted(ls) =~= seq!['.']);
        assert(vstd::utf8::is_ascii_chars(dotted(ls)));
        assert(ascii_lower(dotted(ls)) =~= dotted(ls));
    }
}

/// A label as `{:?}` shows it: `Label(` and its octets in decimal, as a list.
pub open spec fn label_debug(l: Seq<u8>) -> Seq<char> {
    "Label("@ + debug_bytes(l) + ")"@
}

/// The labels as `{:?}` shows them in a list, separated by a comma and a
/// space.
pub open spec fn labels_debug(ls: Seq<Seq<u8>>) -> Seq<char>
    decreases ls.len(),
{
    if ls.len() == 0 {
        Seq::empty()
    } else if ls.len() == 1 {
        label_debug(ls[0])
    } else {
        labels_debug(ls.drop_last()) + ", "@ + label_debug(ls.last())
    }
}

/// A name as `{:?}` shows it: `Name { labels: [..] }`; the root is
/// `Name { labels: [] }`.
pub open spec fn name_debug(ls: Seq<Seq<u8>>) -> Seq<char> {
    "Name { labels: ["@ + labels_debug(ls) + "] }"@
}

impl Name {
    /// The name as `{:?}` shows it (see [`name_debug`]).
    pub fn debug_text(&self) -> (r: String)
        ensures
            r@ == name_debug(self@),
    {
        let mut s = String::from_str("Name { labels: [");
        let mut i: usize = 0;
        while i < self.labels.len()
            invariant
                i <= self.labels@.len(),
                s@ == "Name { labels: ["@ + labels_debug(self@.take(i as int)),
            decreases self.labels@.len() - i,
        {
            let ghost before = s@;
            if i > 0 {
                s.append(", ");
            }
            s.append("Label(");
            push_debug_bytes(&mut s, self.labels[i].0.as_slice());
            s.append(")");
            proof {
                let t = self@.take(i + 1);
                assert(t.drop_last() =~= self@.take(i as int));
                assert(t.last() == self.labels@[i as int]@);
                if i == 0 {
                    assert(self@.take(0) =~= Seq::<Seq<u8>>::empty());
                }
                assert(s@ =~= "Name { labels: ["@ + labels_debug(t));
            }
            i = i + 1;
        }
        assert(self@.take(i as int) =~= self@);
        s.append("] }");
        assert(s@ =~= name_debug(self@));
        s
    }
}

impl Name {
    /// Parses a name from text that has already been lowercased: `"."` is the
    /// root; text with a non-ASCII character is refused; otherwise each
    /// non-empty dot-separated part is made a label with
    /// [`Label::try_from`] and added with [`Name::add_label`].
    pub fn try_from_string(value: String) -> (r: Result<Name, ProtocolError>)
        ensures
            match name_from_text(value@) {
                Ok(ls) => r matches Ok(n) && n@ == ls,
                Err(e) => r == Err::<Name, ProtocolError>(e),
            },
    {
        let mut name = Name::default();
        let text = value.as_str();
        if text.unicode_len() == 1 && text.get_char(0) == '.' {
            assert(text@ =~= seq!['.']);
            return Ok(name);
        }
        if !text.is_ascii() {
            return Err(ProtocolError::InvalidOmainNameLabelByte);
        }
        proof {
            vstd::string::is_ascii_spec_bytes(text);
        }
        let bytes = text.as_bytes();
        let ghost b = ascii_bytes(value@);
        assert(bytes@ =~= b);
        let mut part: Vec<u8> = Vec::new();
        let mut i: usize = 0;
        assert(b.take(0) =~= Seq::<u8>::empty());
        while i < bytes.len()
            invariant
                bytes@ == b,
                i <= b.len(),
                split_dots(b.take(i as int)).last() == part@,
                split_dots(b.take(i as int)).len() >= 1,
                add_parts(split_dots(b.take(i as int)).drop_last()) == Ok::<
                    Seq<Seq<u8>>,
                    ProtocolError,
                >(name@),
                name_from_text(value@) == add_parts(split_dots(b)),
            decreases b.len() - i,
        {
            let ghost parts = split_dots(b.take(i as int));
            assert(b.take(i + 1).drop_last() =~= b.take(i as int));
            assert(b.take(i + 1).last() == b[i as int]);
            if bytes[i] == 46 {
                // A dot ends the current part.
                assert(split_dots(b.take(i + 1)).drop_last() =~= parts);
                assert(parts.drop_last().push(parts.last()) =~= parts);
                if part.len() > 0 {
                    let label = match Label::try_from(part.as_slice()) {
                        Ok(l) => l,
                        Err(e) => {
                            proof {
                                lemma_add_parts_err(b, i + 1, e);
                            }
                            return Err(e);
                        },
                    };
                    match name.add_label(label) {
                        Ok(()) => {},
                        Err(e) => {
                            proof {
                                lemma_add_parts_err(b, i + 1, e);
                            }
                            return Err(e);
                        },
                    }
                }
                part = Vec::new();
                assert(split_dots(b.take(i + 1)).last() =~= part@);
            } else {
                part.push(bytes[i]);
                assert(split_dots(b.take(i + 1)).drop_last() =~= parts.drop_last());
                assert(split_dots(b.take(i + 1)).last() =~= part@);
            }
            i = i + 1;
        }
        proof {
            assert(b.take(i as int) =~= b);
            let parts = split_dots(b);
            assert(parts.drop_last().push(parts.last()) =~= parts);
        }
        if part.len() > 0 {
            let label = Label::try_from(part.as_slice())?;
            name.add_label(label)?;
        }
        Ok(name)
    }

    /// Parses a name from text, after lowercasing it.
    pub fn try_from(value: &str) -> (r: Result<Name, ProtocolError>)
        ensures
            match name_from_text(lowercase(value@)) {
                Ok(ls) => r matches Ok(n) && n@ == ls,
                Err(e) => r == Err::<Name, ProtocolError>(e),
            },
            vstd::utf8::is_ascii_chars(value@) ==> match name_from_text(ascii_lower(value@)) {
                Ok(ls) => r matches Ok(n) && n@ == ls,
                Err(e) => r == Err::<Name, ProtocolError>(e),
            },
    {
        Self::try_from_string(to_lowercase(value))
    }
}

// ---------------------------------------------------------------------------
// Wire format of names
// ---------------------------------------------------------------------------

/// The labels on the wire, each as a `<character-string>`, without the
/// terminating null octet.
pub open spec fn labels_wire(ls: Seq<Seq<u8>>) -> Seq<u8>
    decreases ls.len(),
{
    if ls.len() == 0 {
        Seq::empty()
    } else {
        labels_wire(ls.drop_last()) + char_string_wire(ls.last())
    }
}

/// A name on the wire, as [`Name::pack`] writes it (no compression).
pub open spec fn name_wire(ls: Seq<Seq<u8>>) -> Seq<u8> {
    labels_wire(ls).push(0)
}

/// The offset to resume at after a compression pointer was followed.
pub open spec fn resume_at(resume: Option<usize>) -> Option<int> {
    match resume {
        Some(q) => Some(q as int),
        None => None,
    }
}

/// Reading a name from the loop head at offset `p`, where `ls` are the
/// labels read so far, `resume` the offset after the first compression
/// pointer followed (if any), and `hops` the number of compression pointers
/// followed since the last label.
///
/// - A null octet, or the end of the message, ends the name: after a
///   pointer, reading resumes after the first pointer; else the null octet
///   is consumed.
/// - An octet with the two top bits set starts a two-octet compression
///   pointer, which must point at or before the offset after it. More pointers
///   in a row than the message has octets must visit some offset twice
///   without a label in between, and never end: they are refused.
/// - An octet with the two top bits clear is a label length; the label is
///   made canonical and added as [`Name::add_label`] does.
/// - Other octets are refused.
pub open spec fn read_name_from(
    b: Seq<u8>,
    p: int,
    resume: Option<int>,
    ls: Seq<Seq<u8>>,
    hops: nat,
) -> Result<(Seq<Seq<u8>>, int), ProtocolError>
    decreases 257 - wire_len(ls), b.len() - hops,
{
    if !(0 <= p < b.len()) || b[p] == 0 {
        match resume {
            Some(q) => Ok((ls, q)),
            None => match crate::packing::read_u8_at(b, p) {
                Ok((_, q)) => Ok((ls, q)),
                Err(e) => Err(ProtocolError::Buffer(e)),
            },
        }
    } else if b[p] & 0xC0 == 0xC0 {
        match read_u16_at(b, p) {
            Err(e) => Err(ProtocolError::Buffer(e)),
            Ok((v, q)) => {
                let loc = (v & COMPRESSION_POINTER_MASK) as int;
                if loc > q {
                    Err(ProtocolError::InvalidPointerLocation)
                } else if hops >= b.len() {
                    Err(ProtocolError::PointerLoop)
                } else {
                    let next_resume = match resume {
                        Some(r) => Some(r),
                        None => Some(q),
                    };
                    read_name_from(b, loc, next_resume, ls, hops + 1)
                }
            },
        }
    } else if b[p] & 0xC0 == 0 {
        match read_char_string_at(b, p, MAX_LABEL_LENGTH) {
            Err(_) => Err(ProtocolError::DomainNameLabelTooLong),
            Ok((raw, q)) => {
                let l = canonical_label(raw);
                if wire_len(ls) + l.len() + 1 > MAX_DOMAIN_LENGTH {
                    Err(ProtocolError::DomainNameTooLong)
                } else {
                    proof {
                        lemma_labels_octets_push(ls, l);
                    }
                    read_name_from(b, q, resume, ls.push(l), 0)
                }
            },
        }
    } else {
        Err(ProtocolError::InvalidLabelLenOrPointer(b[p]))
    }
}

/// Reading a name at offset `p` of the message `b`: its labels and the
/// offset after it.
pub open spec fn read_name(b: Seq<u8>, p: int) -> Result<(Seq<Seq<u8>>, int), ProtocolError> {
    read_name_from(b, p, None, Seq::empty(), 0)
}

/// Where reading a name from the loop head (as [`read_name_from`] does)
/// leaves the read offset, whether it succeeds or not: after the name, or
/// after the first compression pointer followed; on an error, at the start
/// of the octets that could not be read, or after the pointer or label that
/// was refused.
pub open spec fn name_end_from(
    b: Seq<u8>,
    p: int,
    resume: Option<int>,
    ls: Seq<Seq<u8>>,
    hops: nat,
) -> int
    decreases 257 - wire_len(ls), b.len() - hops,
{
    if !(0 <= p < b.len()) || b[p] == 0 {
        match resume {
            Some(q) => q,
            None => match crate::packing::read_u8_at(b, p) {
                Ok((_, q)) => q,
                Err(_) => p,
            },
        }
    } else if b[p] & 0xC0 == 0xC0 {
        match read_u16_at(b, p) {
            Err(_) => p,
            Ok((v, q)) => {
                let loc = (v & COMPRESSION_POINTER_MASK) as int;
                if loc > q || hops >= b.len() {
                    q
                } else {
                    let next_resume = match resume {
                        Some(r) => Some(r),
                        None => Some(q),
                    };
                    name_end_from(b, loc, next_resume, ls, hops + 1)
                }
            },
        }
    } else if b[p] & 0xC0 == 0 {
        match read_char_string_at(b, p, MAX_LABEL_LENGTH) {
            Err(_) => p,
            Ok((raw, q)) => {
                let l = canonical_label(raw);
                if wire_len(ls) + l.len() + 1 > MAX_DOMAIN_LENGTH {
                    q
                } else {
                    proof {
                        lemma_labels_octets_push(ls, l);
                    }
                    name_end_from(b, q, resume, ls.push(l), 0)
                }
            },
        }
    } else {
        p
    }
}

/// Where reading a name at offset `p` of the message `b` leaves the read
/// offset, whether it succeeds or not.
pub open spec fn name_end(b: Seq<u8>, p: int) -> int {
    name_end_from(b, p, None, Seq::empty(), 0)
}

proof fn lemma_read_name_from_end(
    b: Seq<u8>,
    p: int,
    resume: Option<int>,
    ls: Seq<Seq<u8>>,
    hops: nat,
)
    requires
        resume matches Some(r) ==> r <= b.len(),
    ensures
        read_name_from(b, p, resume, ls, hops) matches Ok((_, q)) ==> q <= b.len() && match resume {
            Some(r) => q == r,
            None => q > p,
        },
    decreases 257 - wire_len(ls), b.len() - hops,
{
    if !(0 <= p < b.len()) || b[p] == 0 {
    } else if b[p] & 0xC0 == 0xC0 {
        match read_u16_at(b, p) {
            Err(e) => {},
            Ok((v, q)) => {
                let loc = (v & COMPRESSION_POINTER_MASK) as int;
                if loc <= q && hops < b.len() {
                    let next_resume = match resume {
                        Some(r) => Some(r),
                        None => Some(q),
                    };
                    lemma_read_name_from_end(b, loc, next_resume, ls, hops + 1);
                }
            },
        }
    } else if b[p] & 0xC0 == 0 {
        match read_char_string_at(b, p, MAX_LABEL_LENGTH) {
            Err(_) => {},
            Ok((raw, q)) => {
                let l = canonical_label(raw);
                if wire_len(ls) + l.len() + 1 <= MAX_DOMAIN_LENGTH {
                    lemma_labels_octets_push(ls, l);
                    lemma_read_name_from_end(b, q, resume, ls.push(l), 0);
                }
            },
        }
    }
}

/// A name that is read ends after the offset it starts at, within the
/// message.
pub proof fn lemma_read_name_end(b: Seq<u8>, p: int)
    ensures
        read_name(b, p) matches Ok((_, q)) ==> p < q <= b.len(),
{
    lemma_read_name_from_end(b, p, None, Seq::empty(), 0);
}

pub proof fn lemma_labels_wire_single(l: Seq<u8>)
    ensures
        labels_wire(seq![l]) == char_string_wire(l),
{
    let e = seq![l].drop_last();
    assert(e =~= Seq::<Seq<u8>>::empty());
    assert(labels_wire(e) == Seq::<u8>::empty());
    assert(seq![l].last() == l);
    assert(Seq::<u8>::empty() + char_string_wire(l) =~= char_string_wire(l));
}

proof fn lemma_labels_wire_len(ls: Seq<Seq<u8>>)
    requires
        forall|i: int| 0 <= i < ls.len() ==> #[trigger] ls[i].len() <= 255,
    ensures
        labels_wire(ls).len() == ls.len() + labels_octets(ls),
    decreases ls.len(),
{
    if ls.len() > 0 {
        assert forall|i: int| 0 <= i < ls.drop_last().len() implies #[trigger] ls.drop_last()[
            i
        ].len() <= 255 by {
            assert(ls[i].len() <= 255);
        }
        lemma_labels_wire_len(ls.drop_last());
    }
}

/// A valid name takes [`wire_len`] octets on the wire, at most 256.
pub proof fn lemma_name_wire_len(ls: Seq<Seq<u8>>)
    requires
        name_ok(ls),
    ensures
        name_wire(ls).len() == wire_len(ls),
        wire_len(ls) <= 256,
{
    assert forall|i: int| 0 <= i < ls.len() implies #[trigger] ls[i].len() <= 255 by {
        assert(label_ok(ls[i]));
    }
    lemma_labels_wire_len(ls);
}

pub proof fn lemma_labels_wire_append(a: Seq<Seq<u8>>, c: Seq<Seq<u8>>)
    ensures
        labels_wire(a + c) == labels_wire(a) + labels_wire(c),
    decreases c.len(),
{
    if c.len() == 0 {
        assert(a + c =~= a);
        assert(labels_wire(a) + labels_wire(c) =~= labels_wire(a));
    } else {
        assert((a + c).drop_last() =~= a + c.drop_last());
        lemma_labels_wire_append(a, c.drop_last());
        assert(labels_wire(a) + (labels_wire(c.drop_last()) + char_string_wire(c.last()))
            =~= (labels_wire(a) + labels_wire(c.drop_last())) + char_string_wire(c.last()));
    }
}

/// Where label `k` of a packed name sits in the octets.
#[verifier::spinoff_prover]
proof fn lemma_wire_layout(ls: Seq<Seq<u8>>, pre: Seq<u8>, rest: Seq<u8>, k: int)
    requires
        forall|i: int| 0 <= i < ls.len() ==> #[trigger] ls[i].len() <= 255,
        0 <= k <= ls.len(),
    ensures
        ({
            let b = pre + name_wire(ls) + rest;
            let p = pre.len() as int + labels_wire(ls.take(k)).len();
            &&& p < b.len()
            &&& k == ls.len() ==> b[p] == 0
            &&& k < ls.len() ==> p + 1 + ls[k].len() <= b.len()
            &&& k < ls.len() ==> b[p] == ls[k].len() as u8 && b.subrange(
                p + 1,
                p + 1 + ls[k].len() as int,
            ) == ls[k]
        }),
{
    let b = pre + name_wire(ls) + rest;
    let p = pre.len() as int + labels_wire(ls.take(k)).len();
    lemma_labels_wire_append(ls.take(k), ls.skip(k));
    assert(ls.take(k) + ls.skip(k) =~= ls);
    let w = labels_wire(ls.take(k));
    if k == ls.len() {
        assert(ls.take(k) =~= ls);
        assert(b[p] == 0);
    } else {
        let l = ls[k];
        assert(ls.skip(k) =~= seq![l] + ls.skip(k + 1));
        lemma_labels_wire_append(seq![l], ls.skip(k + 1));
        lemma_labels_wire_single(l);
        let tail = labels_wire(ls.skip(k + 1));
        assert(labels_wire(ls) =~= w + (char_string_wire(l) + tail));
        assert(b =~= pre + w + char_string_wire(l) + tail.push(0) + rest);
        assert(b[p] == l.len() as u8);
        assert(b.subrange(p + 1, p + 1 + l.len() as int) =~= l);
    }
}

proof fn lemma_read_name_from_wire(ls: Seq<Seq<u8>>, pre: Seq<u8>, rest: Seq<u8>, k: int)
    requires
        name_ok(ls),
        wire_len(ls) <= MAX_DOMAIN_LENGTH,
        forall|i: int| 0 <= i < ls.len() ==> #[trigger] ls[i].len() > 0,
        0 <= k <= ls.len(),
    ensures
        read_name_from(
            pre + name_wire(ls) + rest,
            pre.len() as int + labels_wire(ls.take(k)).len(),
            None,
            ls.take(k),
            0,
        ) == Ok::<(Seq<Seq<u8>>, int), ProtocolError>(
            (ls, pre.len() as int + name_wire(ls).len()),
        ),
    decreases ls.len() - k,
{
    let b = pre + name_wire(ls) + rest;
    let p = pre.len() as int + labels_wire(ls.take(k)).len();
    assert forall|i: int| 0 <= i < ls.len() implies #[trigger] ls[i].len() <= 255 by {
        assert(label_ok(ls[i]));
    }
    lemma_wire_layout(ls, pre, rest, k);
    lemma_labels_wire_len(ls);
    if k == ls.len() {
        assert(ls.take(k) =~= ls);
        assert(crate::packing::read_u8_at(b, p) == Ok::<(u8, int), crate::errors::BufferError>((0u8, p + 1)));
    } else {
        let l = ls[k];
        assert(label_ok(l));
        let x = l.len() as u8;
        assert(x & 0xC0 == 0 && x != 0) by (bit_vector)
            requires
                1 <= x <= 63,
        ;
        lemma_canonical_label_fixed(l);
        lemma_labels_octets_prefix(ls, k + 1);
        assert(ls.take(k + 1) =~= ls.take(k).push(l));
        lemma_labels_octets_push(ls.take(k), l);
        lemma_labels_wire_append(ls.take(k), seq![l]);
        assert(ls.take(k) + seq![l] =~= ls.take(k + 1));
        lemma_labels_wire_single(l);
        let q = p + 1 + l.len();
        assert(q == pre.len() as int + labels_wire(ls.take(k + 1)).len());
        assert(read_char_string_at(b, p, MAX_LABEL_LENGTH) == Ok::<(Seq<u8>, int), crate::errors::BufferError>((l, q)));
        assert(wire_len(ls.take(k)) + l.len() + 1 <= MAX_DOMAIN_LENGTH);
        lemma_read_name_from_wire(ls, pre, rest, k + 1);
        assert(read_name_from(b, p, None, ls.take(k), 0) == read_name_from(b, q, None, ls.take(k + 1), 0));
    }
}

/// What [`Name::pack`] writes, [`Name::unpack`] reads back: for a name whose
/// labels are all non-empty and which `pack` accepts, reading at the start of
/// the written octets gives the same labels and ends right after them,
/// whatever octets stand before or after.
pub proof fn lemma_pack_unpack(ls: Seq<Seq<u8>>, pre: Seq<u8>, rest: Seq<u8>)
    requires
        name_ok(ls),
        wire_len(ls) <= MAX_DOMAIN_LENGTH,
        forall|i: int| 0 <= i < ls.len() ==> #[trigger] ls[i].len() > 0,
    ensures
        read_name(pre + name_wire(ls) + rest, pre.len() as int) == Ok::<
            (Seq<Seq<u8>>, int),
            ProtocolError,
        >((ls, pre.len() as int + name_wire(ls).len())),
{
    lemma_read_name_from_wire(ls, pre, rest, 0);
    assert(ls.take(0) =~= Seq::<Seq<u8>>::empty());
}

/// Whether the wire form of a name reads back as the same labels: the labels
/// are valid and non-empty, and the name takes at most 255 octets.
pub open spec fn name_roundtrips(ls: Seq<Seq<u8>>) -> bool {
    &&& name_ok(ls)
    &&& wire_len(ls) <= MAX_DOMAIN_LENGTH
    &&& forall|i: int| 0 <= i < ls.len() ==> #[trigger] ls[i].len() > 0
}

impl Name {
    /// Writes the name in wire format, without compression. Refuses a name
    /// longer than 255 octets on the wire; the octets are written either way.
    pub fn pack(&self, buf: &mut PackBuffer) -> (r: Result<(), ProtocolError>)
        ensures
            final(buf).bytes() == old(buf).bytes() + name_wire(self@),
            name_wire(self@).len() == wire_len(self@),
            wire_len(self@) <= MAX_DOMAIN_LENGTH ==> r is Ok,
            wire_len(self@) > MAX_DOMAIN_LENGTH ==> r == Err::<(), ProtocolError>(
                ProtocolError::DomainNameTooLong,
            ),
    {
        proof {
            use_type_invariant(self);
            assert forall|i: int| 0 <= i < self@.len() implies #[trigger] self@[i].len()
                <= 255 by {
                assert(label_ok(self@[i]));
            }
            lemma_labels_wire_len(self@);
        }
        let buffer_len_start = buf.len();
        let mut it = self.iter();
        loop
            invariant
                it.names() == self@,
                it.back() == self@.len(),
                0 <= it.front() <= self@.len(),
                name_ok(self@),
                buf.bytes() == old(buf).bytes() + labels_wire(self@.take(it.front())),
            ensures
                buf.bytes() == old(buf).bytes() + labels_wire(self@.take(self@.len() as int)),
            decreases self@.len() - it.front(),
        {
            let ghost k = it.front();
            match it.next() {
                Some(label) => {
                    if label.len() > MAX_LABEL_LENGTH as usize {
                        return Err(ProtocolError::DomainNameLabelTooLong);
                    }
                    buf.push(label.len() as u8);
                    buf.pack_slice(label.bytes().as_slice());
                    proof {
                        assert(self@.take(k + 1).drop_last() =~= self@.take(k));
                        assert(self@.take(k + 1).last() == self@[k]);
                        assert(buf.bytes() =~= old(buf).bytes() + labels_wire(self@.take(k + 1)));
                    }
                },
                None => {
                    break ;
                },
            }
        }
        assert(self@.take(self@.len() as int) =~= self@);
        buf.push(0);
        assert(buf.bytes() =~= old(buf).bytes() + name_wire(self@));
        if buf.len() - buffer_len_start > MAX_DOMAIN_LENGTH as usize {
            return Err(ProtocolError::DomainNameTooLong);
        }
        Ok(())
    }

    /// Reads a name at the read offset of `buf`, following compression
    /// pointers, as [`read_name`] describes; the read offset is left where
    /// [`name_end`] says, whether the name could be read or not.
    pub fn unpack(buf: &mut UnpackBuffer) -> (r: Result<Name, ProtocolError>)
        ensures
            final(buf).bytes() == old(buf).bytes(),
            final(buf).pos() == name_end(old(buf).bytes(), old(buf).pos()),
            match read_name(old(buf).bytes(), old(buf).pos()) {
                Ok((ls, p)) => r matches Ok(n) && n@ == ls && final(buf).pos() == p,
                Err(e) => r == Err::<Name, ProtocolError>(e),
            },
    {
        let ghost b = buf.bytes();
        let ghost p0 = buf.pos();
        let mut name = Name::default();

        // If we immediately encounter a null octet, the name is the root.
        match buf.peek() {
            Some(x) => {
                if x == 0 {
                    let _ = buf.pop();
                    return Ok(name);
                }
            },
            None => {},
        }

        let total = buf.offset() + buf.len();
        let mut resume: Option<usize> = None;
        let mut hops: usize = 0;
        loop
            invariant
                buf.bytes() == b,
                b == old(buf).bytes(),
                p0 == old(buf).pos(),
                total == b.len(),
                0 <= buf.pos() <= b.len(),
                hops <= b.len(),
                resume matches Some(q) ==> q <= b.len(),
                read_name_from(b, buf.pos(), resume_at(resume), name@, hops as nat) == read_name(
                    b,
                    p0,
                ),
                name_end_from(b, buf.pos(), resume_at(resume), name@, hops as nat) == name_end(
                    b,
                    p0,
                ),
            decreases 257 - wire_len(name@), b.len() - hops,
        {
            let ghost pos = buf.pos();
            let ghost before = name@;
            let peeked = buf.peek();
            let x = match peeked {
                Some(x) => x,
                None => 0,
            };
            if x == 0 {
                // We followed one or more compression pointers: continue
                // after the first one. Else consume the terminating null octet.
                match resume {
                    Some(q) => {
                        let _ = buf.jump_to(q);
                        return Ok(name);
                    },
                    None => {
                        match buf.pop() {
                            Ok(_) => return Ok(name),
                            Err(e) => return Err(ProtocolError::Buffer(e)),
                        }
                    },
                }
            }
            proof {
                use_type_invariant(&name);
            }
            if x & 0xC0 == 0xC0 {
                // A compression pointer: jump to the location it names, which
                // must come before the current offset.
                let v = match buf.unpack_u16() {
                    Ok(v) => v,
                    Err(e) => return Err(ProtocolError::Buffer(e)),
                };
                let location = (v & COMPRESSION_POINTER_MASK) as usize;
                if location > buf.offset() {
                    return Err(ProtocolError::InvalidPointerLocation);
                }
                if hops >= total {
                    return Err(ProtocolError::PointerLoop);
                }
                if resume.is_none() {
                    resume = Some(buf.offset());
                }
                let _ = buf.jump_to(location);
                hops = hops + 1;
            } else if x & 0xC0 == 0 {
                // A label: read as many octets as the length octet says.
                let bytes = match buf.unpack_character_string(MAX_LABEL_LENGTH) {
                    Ok(bytes) => bytes,
                    Err(_) => return Err(ProtocolError::DomainNameLabelTooLong),
                };
                let label = Label::try_from(bytes.as_slice())?;
                proof {
                    use_type_invariant(&label);
                    lemma_labels_octets_push(before, label@);
                }
                name.add_label(label)?;
                hops = 0;
            } else {
                return Err(ProtocolError::InvalidLabelLenOrPointer(x));
            }
        }
    }
}

} // verus!
