use vstd::prelude::*;
use vstd::slice::slice_to_vec;
use vstd::string::StringSliceAdditionalSpecFns;

verus! {

/// Abstract value of one metadata entry: a key, a value, and a tag telling
/// whether the entry carries binary data (gRPC keeps binary entries, whose
/// keys end in `-bin`, apart from plain ASCII text entries).
pub struct MetadataEntryView {
    pub key: Seq<u8>,
    pub value: Seq<u8>,
    pub binary: bool,
}

/// One entry of a [`MetadataMap`]. Keys and values are kept as raw bytes,
/// the form in which they travel on the wire.
#[derive(Debug)]
pub struct MetadataEntry {
    pub key: Vec<u8>,
    pub value: Vec<u8>,
    pub binary: bool,
}

impl View for MetadataEntry {
    type V = MetadataEntryView;

    open spec fn view(&self) -> MetadataEntryView {
        MetadataEntryView { key: self.key@, value: self.value@, binary: self.binary }
    }
}

impl Clone for MetadataEntry {
    fn clone(&self) -> (r: Self)
        ensures
            r@ == self@,
    {
        MetadataEntry { key: self.key.clone(), value: self.value.clone(), binary: self.binary }
    }
}

impl PartialEq for MetadataEntry {
    fn eq(&self, other: &Self) -> (r: bool) {
        let r = self.key == other.key && self.value == other.value && self.binary
            == other.binary;
        proof {
            if r {
                assert(self.key@ =~= other.key@);
                assert(self.value@ =~= other.value@);
            } else {
                if self@ == other@ {
                    assert(self.key@ =~= other.key@);
                    assert(self.value@ =~= other.value@);
                    assert(false);
                }
            }
        }
        r
    }
}

impl Eq for MetadataEntry {}

impl vstd::std_specs::cmp::PartialEqSpecImpl for MetadataEntry {
    open spec fn obeys_eq_spec() -> bool {
        true
    }

    open spec fn eq_spec(&self, other: &Self) -> bool {
        self@ == other@
    }
}

/// An ordered map of request or response metadata: the model of the header
/// block that accompanies a gRPC call, holding text and binary-tagged
/// entries in insertion order.
#[derive(Debug)]
pub struct MetadataMap {
    pub entries: Vec<MetadataEntry>,
}

/// The abstract contents of a sequence of entries.
pub open spec fn entries_view(s: Seq<MetadataEntry>) -> Seq<MetadataEntryView> {
    s.map_values(|e: MetadataEntry| e@)
}

/// Pointwise description of [`entries_view`].
pub broadcast proof fn lemma_entries_view(s: Seq<MetadataEntry>)
    ensures
        (#[trigger] entries_view(s)).len() == s.len(),
        forall|k: int| 0 <= k < s.len() ==> entries_view(s)[k] == s[k]@,
{
}

impl View for MetadataMap {
    type V = Seq<MetadataEntryView>;

    open spec fn view(&self) -> Seq<MetadataEntryView> {
        entries_view(self.entries@)
    }
}

/// `s` with every entry whose key is `key` removed, order otherwise kept.
pub open spec fn without_key(s: Seq<MetadataEntryView>, key: Seq<u8>) -> Seq<MetadataEntryView>
    decreases s.len(),
{
    if s.len() == 0 {
        Seq::empty()
    } else {
        let rest = without_key(s.drop_last(), key);
        if s.last().key == key {
            rest
        } else {
            rest.push(s.last())
        }
    }
}

/// The effect of inserting an entry: every older entry under the same key
/// goes away and the new entry is appended.
pub open spec fn insert_view(
    s: Seq<MetadataEntryView>,
    key: Seq<u8>,
    value: Seq<u8>,
    binary: bool,
) -> Seq<MetadataEntryView> {
    without_key(s, key).push(MetadataEntryView { key, value, binary })
}

/// The value of the first entry with the given key and tag, if any.
pub open spec fn first_value(
    s: Seq<MetadataEntryView>,
    key: Seq<u8>,
    binary: bool,
) -> Option<Seq<u8>>
    decreases s.len(),
{
    if s.len() == 0 {
        None
    } else if s.first().key == key && s.first().binary == binary {
        Some(s.first().value)
    } else {
        first_value(s.drop_first(), key, binary)
    }
}

/// No entry survives [`without_key`] under the removed key.
pub proof fn lemma_without_key_free(s: Seq<MetadataEntryView>, key: Seq<u8>)
    ensures
        forall|j: int|
            0 <= j < without_key(s, key).len() ==> (#[trigger] without_key(s, key)[j]).key
                != key,
    decreases s.len(),
{
    if s.len() == 0 {
    } else {
        lemma_without_key_free(s.drop_last(), key);
        let rest = without_key(s.drop_last(), key);
        if s.last().key != key {
            assert(without_key(s, key) == rest.push(s.last()));
            assert forall|j: int|
                0 <= j < without_key(s, key).len() implies (#[trigger] without_key(s, key)[j]).key
                != key by {
                if j < rest.len() {
                    assert(without_key(s, key)[j] == rest[j]);
                } else {
                    assert(without_key(s, key)[j] == s.last());
                }
            }
        }
    }
}

/// How a lookup sees one appended entry: an earlier match wins; otherwise
/// the appended entry answers exactly when it matches.
pub proof fn lemma_first_value_push(
    t: Seq<MetadataEntryView>,
    e: MetadataEntryView,
    key: Seq<u8>,
    binary: bool,
)
    ensures
        first_value(t.push(e), key, binary) == (if first_value(t, key, binary) is Some {
            first_value(t, key, binary)
        } else if e.key == key && e.binary == binary {
            Some(e.value)
        } else {
            None::<Seq<u8>>
        }),
    decreases t.len(),
{
    if t.len() == 0 {
        assert(t.push(e).first() == e);
        assert(t.push(e).drop_first() =~= Seq::<MetadataEntryView>::empty());
    } else {
        assert(t.push(e).first() == t[0]);
        assert(t.push(e).drop_first() =~= t.drop_first().push(e));
        lemma_first_value_push(t.drop_first(), e, key, binary);
    }
}

proof fn lemma_first_value_none_when_free(t: Seq<MetadataEntryView>, key: Seq<u8>, binary: bool)
    requires
        forall|j: int| 0 <= j < t.len() ==> (#[trigger] t[j]).key != key,
    ensures
        first_value(t, key, binary) is None,
    decreases t.len(),
{
    if t.len() == 0 {
    } else {
        assert forall|j: int|
            0 <= j < t.drop_first().len() implies (#[trigger] t.drop_first()[j]).key
            != key by {
            assert(t.drop_first()[j] == t[j + 1]);
        }
        lemma_first_value_none_when_free(t.drop_first(), key, binary);
    }
}

/// An inserted entry is exactly what a later lookup under its key and tag
/// finds: the map hands back the very bytes that were put in.
pub proof fn lemma_insert_first_value(
    s: Seq<MetadataEntryView>,
    key: Seq<u8>,
    value: Seq<u8>,
    binary: bool,
)
    ensures
        first_value(insert_view(s, key, value, binary), key, binary) == Some(value),
{
    lemma_without_key_free(s, key);
    lemma_first_value_none_when_free(without_key(s, key), key, binary);
    lemma_first_value_push(
        without_key(s, key),
        MetadataEntryView { key, value, binary },
        key,
        binary,
    );
}

proof fn lemma_first_value_without_key(
    s: Seq<MetadataEntryView>,
    key: Seq<u8>,
    key2: Seq<u8>,
    binary: bool,
)
    requires
        key2 != key,
    ensures
        first_value(without_key(s, key), key2, binary) == first_value(s, key2, binary),
    decreases s.len(),
{
    if s.len() == 0 {
    } else {
        lemma_first_value_without_key(s.drop_last(), key, key2, binary);
        assert(s =~= s.drop_last().push(s.last()));
        lemma_first_value_push(s.drop_last(), s.last(), key2, binary);
        if s.last().key != key {
            lemma_first_value_push(without_key(s.drop_last(), key), s.last(), key2, binary);
        }
    }
}

/// Inserting under one key leaves lookups under every other key unchanged.
pub proof fn lemma_insert_preserves_other_keys(
    s: Seq<MetadataEntryView>,
    key: Seq<u8>,
    value: Seq<u8>,
    binary: bool,
    key2: Seq<u8>,
    binary2: bool,
)
    requires
        key2 != key,
    ensures
        first_value(insert_view(s, key, value, binary), key2, binary2) == first_value(
            s,
            key2,
            binary2,
        ),
{
    lemma_first_value_without_key(s, key, key2, binary2);
    lemma_first_value_push(
        without_key(s, key),
        MetadataEntryView { key, value, binary },
        key2,
        binary2,
    );
}

impl MetadataMap {
    /// An empty metadata map.
    pub fn new() -> (r: Self)
        ensures
            r@ == Seq::<MetadataEntryView>::empty(),
    {
        MetadataMap { entries: Vec::new() }
    }

    /// How many entries the map holds.
    pub fn len(&self) -> (n: usize)
        ensures
            n == self@.len(),
    {
        self.entries.len()
    }

    fn insert_entry(&mut self, entry: MetadataEntry)
        ensures
            final(self)@ == insert_view(old(self)@, entry.key@, entry.value@, entry.binary),
    {
        broadcast use lemma_entries_view;

        let ghost orig: Seq<MetadataEntryView> = self@;
        let mut kept: Vec<MetadataEntry> = Vec::new();
        let n = self.entries.len();
        let mut i: usize = 0;
        while i < n
            invariant
                0 <= i <= n,
                n == self.entries.len(),
                self@ == orig,
                entries_view(kept@) =~= without_key(orig.subrange(0, i as int), entry.key@),
            decreases n - i,
        {
            proof {
                assert(orig.subrange(0, i as int + 1).drop_last() =~= orig.subrange(
                    0,
                    i as int,
                ));
                assert(orig.subrange(0, i as int + 1).last() == orig[i as int]);
                assert(orig[i as int] == self.entries@[i as int]@);
            }
            if !bytes_eq(self.entries[i].key.as_slice(), entry.key.as_slice()) {
                kept.push(self.entries[i].clone());
            }
            proof {
                assert(entries_view(kept@) =~= without_key(
                    orig.subrange(0, i as int + 1),
                    entry.key@,
                ));
            }
            i = i + 1;
        }
        proof {
            assert(orig.subrange(0, n as int) =~= orig);
        }
        kept.push(entry);
        self.entries = kept;
        proof {
            assert(self@ =~= insert_view(orig, entry.key@, entry.value@, entry.binary));
        }
    }

    /// Insert a text entry, replacing any entry already stored under `key`.
    pub fn insert(&mut self, key: &str, value: Vec<u8>)
        ensures
            final(self)@ == insert_view(old(self)@, key.spec_bytes(), value@, false),
    {
        let k = slice_to_vec(key.as_bytes());
        self.insert_entry(MetadataEntry { key: k, value, binary: false })
    }

    /// Insert a binary-tagged entry, replacing any entry already stored
    /// under `key`.
    pub fn insert_bin(&mut self, key: &str, value: Vec<u8>)
        ensures
            final(self)@ == insert_view(old(self)@, key.spec_bytes(), value@, true),
    {
        let k = slice_to_vec(key.as_bytes());
        self.insert_entry(MetadataEntry { key: k, value, binary: true })
    }

    fn get_tagged(&self, key: &[u8], binary: bool) -> (r: Option<&Vec<u8>>)
        ensures
            (match first_value(self@, key@, binary) {
                Some(v) => r matches Some(rv) && rv@ == v,
                None => r is None,
            }),
    {
        broadcast use lemma_entries_view;

        proof {
            assert(self@.skip(0) =~= self@);
        }
        let mut i: usize = 0;
        while i < self.entries.len()
            invariant
                0 <= i <= self.entries.len(),
                first_value(self@.skip(i as int), key@, binary) == first_value(
                    self@,
                    key@,
                    binary,
                ),
            decreases self.entries.len() - i,
        {
            proof {
                assert(self@.skip(i as int).first() == self@[i as int]);
            }
            if self.entries[i].binary == binary && bytes_eq(self.entries[i].key.as_slice(), key) {
                return Some(&self.entries[i].value);
            }
            proof {
                assert(self@.skip(i as int).drop_first() =~= self@.skip(i as int + 1));
            }
            i = i + 1;
        }
        proof {
            assert(self@.skip(self@.len() as int) =~= Seq::<MetadataEntryView>::empty());
        }
        None
    }

    /// The value of the first text entry stored under `key`, if any.
    pub fn get(&self, key: &str) -> (r: Option<&Vec<u8>>)
        ensures
            (match first_value(self@, key.spec_bytes(), false) {
                Some(v) => r matches Some(rv) && rv@ == v,
                None => r is None,
            }),
    {
        self.get_tagged(key.as_bytes(), false)
    }

    /// The value of the first binary-tagged entry stored under `key`, if any.
    pub fn get_bin(&self, key: &str) -> (r: Option<&Vec<u8>>)
        ensures
            (match first_value(self@, key.spec_bytes(), true) {
                Some(v) => r matches Some(rv) && rv@ == v,
                None => r is None,
            }),
    {
        self.get_tagged(key.as_bytes(), true)
    }
}

impl Clone for MetadataMap {
    fn clone(&self) -> (r: Self)
        ensures
            r@ == self@,
    {
        let r = MetadataMap { entries: self.entries.clone() };
        proof {
            assert(r@ =~= self@);
        }
        r
    }
}

impl PartialEq for MetadataMap {
    fn eq(&self, other: &Self) -> (r: bool) {
        let r = self.entries == other.entries;
        proof {
            broadcast use lemma_entries_view;

            if r {
                assert forall|k: int| 0 <= k < self@.len() implies self@[k] == other@[k] by {
                    assert(self.entries@[k]@ == other.entries@[k]@);
                }
                assert(self@ =~= other@);
            } else {
                if self@ == other@ {
                    assert(self.entries@.len() == other.entries@.len());
                    assert forall|k: int|
                        0 <= k < self.entries@.len() implies self.entries@[k]@
                        == other.entries@[k]@ by {
                        assert(self@[k] == other@[k]);
                    }
                    assert(false);
                }
            }
        }
        r
    }
}

impl Eq for MetadataMap {}

impl vstd::std_specs::cmp::PartialEqSpecImpl for MetadataMap {
    open spec fn obeys_eq_spec() -> bool {
        true
    }

    open spec fn eq_spec(&self, other: &Self) -> bool {
        self@ == other@
    }
}

/// Byte-for-byte equality of two byte strings.
fn bytes_eq(a: &[u8], b: &[u8]) -> (r: bool)
    ensures
        r == (a@ == b@),
{
    if a.len() != b.len() {
        return false;
    }
    let mut i: usize = 0;
    while i < a.len()
        invariant
            0 <= i <= a.len(),
            a.len() == b.len(),
            forall|k: int| 0 <= k < i ==> a@[k] == b@[k],
        decreases a.len() - i,
    {
        if a[i] != b[i] {
            return false;
        }
        i = i + 1;
    }
    proof {
        assert(a@ =~= b@);
    }
    true
}

} // verus!
