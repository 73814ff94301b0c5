//! A property set in memory: its header fields and its properties, with the
//! operations of a map and the two directions of the byte format.

use crate::codepage::CodePage;
use crate::error::Error;
use crate::format::{
    codepage_after, codepage_before, directory, encode_values, header, lemma_parse_serialized,
    parse, parse_entries, serialize, serialize_section, OperatingSystem, PropertySetView,
    BYTE_ORDER_MARK, FORMAT_VERSION, HEADER_LEN, PROPERTY_CODEPAGE,
};
use crate::model::{
    ascending, contains_id, is_rank, lemma_lookup_remove, lemma_lookup_upsert, lemma_rank,
    lemma_remove_ascending, lemma_upsert_ascending, lookup, only_changed, rank, remove_id, upsert,
};
use crate::value::{push_zeros, PropertyValue, PropertyValueView};
use crate::wire::{bits_of_i16, push_u16, push_u32, read_u16, read_u32};
use vstd::pervasive::VecAdditionalExecFns;
use vstd::prelude::*;
use vstd::slice::slice_subrange;

verus! {

/// One property: an id and its value.
#[derive(Clone, Debug, PartialEq, Eq)]
struct Property {
    id: u32,
    value: PropertyValue,
}

/// A property set: the kind and version of the operating system it was
/// written on, a 16-byte format identifier, and a map from property ids to
/// values.
///
/// The map is kept as a vector of entries in ascending order of id.  That
/// the ids ascend is the invariant of the type, [`wf`](PropertySet::wf):
/// every function that returns a set establishes it, and every method
/// keeps it.
#[derive(Clone, Debug, PartialEq, Eq)]
pub struct PropertySet {
    os: OperatingSystem,
    os_version: u16,
    format_identifier: [u8; 16],
    entries: Vec<Property>,
}

/// The model of a vector of entries.
spec fn entries_view(entries: Seq<Property>) -> Seq<(u32, PropertyValueView)> {
    entries.map_values(|p: Property| (p.id, p.value@))
}

impl View for PropertySet {
    type V = PropertySetView;

    closed spec fn view(&self) -> PropertySetView {
        PropertySetView {
            os: self.os,
            os_version: self.os_version,
            format_identifier: self.format_identifier@,
            entries: entries_view(self.entries@),
        }
    }
}

/// The code page in effect after a property, as [`codepage_after`] defines
/// it.
fn next_codepage(id: u32, value: &PropertyValue, cp: CodePage) -> (r: Result<CodePage, Error>)
    ensures
        r == codepage_after(id, value@, cp),
{
    if id != PROPERTY_CODEPAGE {
        Ok(cp)
    } else {
        match value {
            PropertyValue::I2(x) => match CodePage::from_id(bits_of_i16(*x) as i32) {
                Some(named) => Ok(named),
                None => Err(Error::UnsupportedValue),
            },
            _ => Err(Error::UnsupportedValue),
        }
    }
}

/// Once an entry cannot be written, no longer run of entries can.
proof fn lemma_encode_values_err(e: Seq<(u32, PropertyValueView)>, k: int, m: int)
    requires
        0 <= k <= m,
        encode_values(e, k) is Err,
    ensures
        encode_values(e, m) == encode_values(e, k),
    decreases m,
{
    if k < m {
        lemma_encode_values_err(e, k, m - 1);
    }
}

impl PropertySet {
    /// The invariant of the type: the ids of the entries ascend.
    pub closed spec fn wf(&self) -> bool {
        ascending(entries_view(self.entries@))
    }

    /// The model of a well-formed set is well formed: its format identifier
    /// has 16 bytes and the ids of its entries ascend.
    pub proof fn lemma_wf(&self)
        requires
            self.wf(),
        ensures
            self@.wf(),
    {
    }

    /// A set without properties.
    pub fn new(os: OperatingSystem, os_version: u16, format_identifier: [u8; 16]) -> (set:
        PropertySet)
        ensures
            set.wf(),
            set@ == (PropertySetView {
                os,
                os_version,
                format_identifier: format_identifier@,
                entries: Seq::empty(),
            }),
    {
        let set = PropertySet { os, os_version, format_identifier, entries: Vec::new() };
        assert(set@.entries =~= Seq::empty());
        set
    }

    /// The family of operating systems named in the header.
    pub fn os(&self) -> (os: OperatingSystem)
        ensures
            os == self@.os,
    {
        self.os
    }

    /// The version of the operating system named in the header.
    pub fn os_version(&self) -> (version: u16)
        ensures
            version == self@.os_version,
    {
        self.os_version
    }

    /// The 16 bytes that say what kind of set this is.
    pub fn format_identifier(&self) -> (id: &[u8; 16])
        ensures
            id@ == self@.format_identifier,
    {
        &self.format_identifier
    }

    /// The number of properties.
    pub fn len(&self) -> (n: usize)
        ensures
            n == self@.entries.len(),
    {
        self.entries.len()
    }

    /// Whether the set has no property.
    pub fn is_empty(&self) -> (empty: bool)
        ensures
            empty == (self@.entries.len() == 0),
    {
        self.entries.len() == 0
    }

    /// The place of `id` among the entries.
    fn find(&self, id: u32) -> (p: usize)
        requires
            self.wf(),
        ensures
            p == rank(self@.entries, id),
            is_rank(self@.entries, id, p as int),
    {
        let mut p: usize = 0;
        while p < self.entries.len() && self.entries[p].id < id
            invariant
                p <= self.entries@.len(),
                forall|i: int| 0 <= i < p ==> (#[trigger] self@.entries[i]).0 < id,
            decreases self.entries@.len() - p,
        {
            p += 1;
        }
        proof {
            let e = self@.entries;
            assert forall|i: int| p <= i < e.len() implies (#[trigger] e[i]).0 >= id by {
                if p < i {
                    assert(e[p as int].0 < e[i].0);
                }
            }
            lemma_rank(e, id, p as int);
        }
        p
    }

    /// Whether the set has a property `id`.
    pub fn contains(&self, id: u32) -> (found: bool)
        requires
            self.wf(),
        ensures
            found == contains_id(self@.entries, id),
            found == lookup(self@.entries, id) is Some,
    {
        let p = self.find(id);
        p < self.entries.len() && self.entries[p].id == id
    }

    /// The value of property `id`, if the set has one.
    pub fn get(&self, id: u32) -> (value: Option<&PropertyValue>)
        requires
            self.wf(),
        ensures
            match lookup(self@.entries, id) {
                Some(v) => value is Some && value->0@ == v,
                None => value is None,
            },
    {
        let p = self.find(id);
        if p < self.entries.len() && self.entries[p].id == id {
            Some(&self.entries[p].value)
        } else {
            None
        }
    }

    /// Sets property `id` to `value`, whether or not the set had one.  No
    /// other property changes, property 1 included: a text that is already
    /// held stays as it is when the code page of the set is changed, and is
    /// encoded in the new code page when the set is next written.
    pub fn set(&mut self, id: u32, value: PropertyValue)
        requires
            old(self).wf(),
        ensures
            final(self).wf(),
            final(self)@ == (PropertySetView {
                entries: upsert(old(self)@.entries, id, value@),
                ..old(self)@
            }),
            only_changed(old(self)@.entries, final(self)@.entries, id, Some(value@)),
    {
        proof {
            lemma_upsert_ascending(self@.entries, id, value@);
            assert forall|other: u32| #[trigger]
                lookup(upsert(self@.entries, id, value@), other) == if other == id {
                    Some(value@)
                } else {
                    lookup(self@.entries, other)
                } by {
                lemma_lookup_upsert(self@.entries, id, value@, other);
            }
        }
        let p = self.find(id);
        let ghost before = self@.entries;
        if p < self.entries.len() && self.entries[p].id == id {
            assert(entries_view(self.entries@.update(p as int, Property { id, value }))
                =~= before.update(p as int, (id, value@)));
            self.entries.set(p, Property { id, value });
        } else {
            assert(entries_view(self.entries@.insert(p as int, Property { id, value }))
                =~= before.insert(p as int, (id, value@)));
            self.entries.insert(p, Property { id, value });
        }
    }

    /// Removes property `id` and returns its value, if the set had one.
    /// Removing a property that is absent changes nothing.
    pub fn remove(&mut self, id: u32) -> (value: Option<PropertyValue>)
        requires
            old(self).wf(),
        ensures
            final(self).wf(),
            final(self)@ == (PropertySetView {
                entries: remove_id(old(self)@.entries, id),
                ..old(self)@
            }),
            match lookup(old(self)@.entries, id) {
                Some(v) => value is Some && value->0@ == v,
                None => value is None,
            },
            only_changed(old(self)@.entries, final(self)@.entries, id, None),
            lookup(old(self)@.entries, id) is None ==> final(self)@ == old(self)@,
    {
        proof {
            lemma_remove_ascending(self@.entries, id);
            assert forall|other: u32| #[trigger]
                lookup(remove_id(self@.entries, id), other) == if other == id {
                    None
                } else {
                    lookup(self@.entries, other)
                } by {
                lemma_lookup_remove(self@.entries, id, other);
            }
        }
        let p = self.find(id);
        let ghost before = self@.entries;
        if p < self.entries.len() && self.entries[p].id == id {
            assert(entries_view(self.entries@.remove(p as int)) =~= before.remove(p as int));
            let entry = self.entries.remove(p);
            Some(entry.value)
        } else {
            None
        }
    }

    /// The ids of the properties, in ascending order.
    pub fn ids(&self) -> (ids: Vec<u32>)
        ensures
            ids@ == self@.entries.map_values(|entry: (u32, PropertyValueView)| entry.0),
    {
        let mut ids: Vec<u32> = Vec::new();
        let mut k: usize = 0;
        while k < self.entries.len()
            invariant
                k <= self.entries@.len(),
                ids@.len() == k,
                forall|i: int| 0 <= i < k ==> ids@[i] == (#[trigger] self@.entries[i]).0,
            decreases self.entries@.len() - k,
        {
            ids.push(self.entries[k].id);
            k += 1;
        }
        assert(ids@ =~= self@.entries.map_values(|entry: (u32, PropertyValueView)| entry.0));
        ids
    }

    /// Parses a property set.
    ///
    /// The result is the set that [`parse`] defines, or the error that it
    /// defines: nothing is returned of a set that cannot be read whole.
    pub fn read(source: &[u8]) -> (r: Result<PropertySet, Error>)
        ensures
            match parse(source@) {
                Ok(v) => r is Ok && r->Ok_0@ == v && r->Ok_0.wf(),
                Err(e) => r is Err && r->Err_0 == e,
            },
    {
        let len: usize = source.len();
        if len < HEADER_LEN as usize {
            return Err(Error::InvalidFormat);
        }
        if read_u16(source, 0) != BYTE_ORDER_MARK || read_u16(source, 2) != FORMAT_VERSION {
            return Err(Error::InvalidFormat);
        }
        let os_version: u16 = read_u16(source, 4);
        let os = match OperatingSystem::from_number(read_u16(source, 6)) {
            Some(os) => os,
            None => {
                return Err(Error::InvalidFormat);
            },
        };
        if read_u32(source, 24) != 1 {
            return Err(Error::InvalidFormat);
        }
        let mut format_identifier: [u8; 16] = [0u8; 16];
        let mut i: usize = 0;
        while i < 16
            invariant
                i <= 16,
                source@.len() >= 48,
                forall|j: int| 0 <= j < i ==> format_identifier@[j] == source@[28 + j],
            decreases 16 - i,
        {
            format_identifier[i] = source[28 + i];
            i += 1;
        }
        assert(format_identifier@ =~= source@.subrange(28, 44));
        let start: usize = read_u32(source, 44) as usize;
        if start > len || len - start < 8 {
            return Err(Error::InvalidFormat);
        }
        let size: usize = read_u32(source, start) as usize;
        let count: usize = read_u32(source, start + 4) as usize;
        if len - start < size || (size as u64) < 8 + 8 * (count as u64) {
            return Err(Error::InvalidFormat);
        }
        let section = slice_subrange(source, start, start + size);
        let mut set = PropertySet::new(os, os_version, format_identifier);
        let mut cp = CodePage::Utf8;
        let mut k: usize = 0;
        let ghost whole = parse_entries(section@, count as int, 0, CodePage::Utf8, Seq::empty());
        assert(parse(source@) == (match whole {
            Err(err) => Err::<PropertySetView, Error>(err),
            Ok(entries) => Ok(
                PropertySetView {
                    os,
                    os_version,
                    format_identifier: format_identifier@,
                    entries,
                },
            ),
        }));
        while k < count
            invariant
                k <= count,
                8 + 8 * count <= size,
                section@.len() == size,
                parse(source@) == (match whole {
                    Err(err) => Err::<PropertySetView, Error>(err),
                    Ok(entries) => Ok(
                        PropertySetView {
                            os,
                            os_version,
                            format_identifier: format_identifier@,
                            entries,
                        },
                    ),
                }),
                set.wf(),
                set@.os == os,
                set@.os_version == os_version,
                set@.format_identifier == format_identifier@,
                whole == parse_entries(section@, count as int, k as int, cp, set@.entries),
            decreases count - k,
        {
            let id: u32 = read_u32(section, 8 + 8 * k);
            let off: usize = read_u32(section, 12 + 8 * k) as usize;
            if set.contains(id) {
                return Err(Error::InvalidFormat);
            }
            let value = match PropertyValue::read_from(section, off, cp) {
                Ok(value) => value,
                Err(e) => {
                    return Err(e);
                },
            };
            let next = match next_codepage(id, &value, cp) {
                Ok(next) => next,
                Err(e) => {
                    return Err(e);
                },
            };
            cp = next;
            set.set(id, value);
            k += 1;
        }
        Ok(set)
    }

    /// Serialises the set and appends its bytes to `sink`.
    ///
    /// The bytes are those that [`serialize`] defines, and [`read`](Self::read)
    /// reads them back as this set.  They are built in full before `sink` is
    /// touched: on an error `sink` is left as it was, and two calls on the
    /// same set append the same bytes.
    pub fn write(&self, sink: &mut Vec<u8>) -> (r: Result<(), Error>)
        requires
            self.wf(),
        ensures
            match serialize(self@) {
                Ok(bytes) => r is Ok && final(sink)@ == old(sink)@ + bytes && parse(bytes) == Ok::<
                    PropertySetView,
                    Error,
                >(self@),
                Err(e) => r == Err::<(), Error>(e) && final(sink)@ == old(sink)@,
            },
    {
        proof {
            if serialize(self@) is Ok {
                lemma_parse_serialized(self@);
            }
        }
        let n: usize = self.entries.len();
        if n > 0x1FFF_FFFE {
            return Err(Error::ValidationError);
        }
        let ghost e = self@.entries;
        let base: u64 = 8 + 8 * (n as u64);
        let mut dir: Vec<u8> = Vec::new();
        let mut blob: Vec<u8> = Vec::new();
        let mut cp = CodePage::Utf8;
        let mut k: usize = 0;
        while k < n
            invariant
                k <= n,
                n == self.entries@.len(),
                n == e.len(),
                e == self@.entries,
                base == 8 + 8 * n,
                base + blob@.len() <= u32::MAX,
                sink@ == old(sink)@,
                encode_values(e, k as int) == Ok::<Seq<u8>, Error>(blob@),
                dir@ == directory(e, k as int),
                cp == codepage_before(e, k as int),
            decreases n - k,
        {
            let entry = &self.entries[k];
            assert(e[k as int] == (entry.id, entry.value@));
            let offset: u32 = (base + blob.len() as u64) as u32;
            let ghost before = blob@;
            match entry.value.write_to(&mut blob, cp) {
                Ok(()) => {},
                Err(err) => {
                    proof {
                        lemma_encode_values_err(e, k + 1, n as int);
                    }
                    return Err(err);
                },
            }
            let next = match next_codepage(entry.id, &entry.value, cp) {
                Ok(next) => next,
                Err(_) => {
                    proof {
                        lemma_encode_values_err(e, k + 1, n as int);
                    }
                    return Err(Error::UnsupportedValue);
                },
            };
            if blob.len() as u64 > 0xFFFF_FFFF - base {
                proof {
                    lemma_encode_values_err(e, k + 1, n as int);
                }
                return Err(Error::ValidationError);
            }
            push_u32(&mut dir, entry.id);
            push_u32(&mut dir, offset);
            cp = next;
            k += 1;
        }
        let mut out: Vec<u8> = Vec::new();
        push_u16(&mut out, BYTE_ORDER_MARK);
        push_u16(&mut out, FORMAT_VERSION);
        push_u16(&mut out, self.os_version);
        push_u16(&mut out, self.os.number());
        push_zeros(&mut out, 16);
        push_u32(&mut out, 1);
        out.extend_from_slice(self.format_identifier.as_slice());
        push_u32(&mut out, HEADER_LEN);
        assert(out@ =~= header(self@));
        push_u32(&mut out, (base + blob.len() as u64) as u32);
        push_u32(&mut out, n as u32);
        out.extend_from_slice(dir.as_slice());
        out.extend_from_slice(blob.as_slice());
        assert(out@ =~= header(self@) + serialize_section(e)->Ok_0);
        sink.extend_from_slice(out.as_slice());
        Ok(())
    }
}

} // verus!
