//! A container opened for reading: its header, its record directory, and
//! the source from which payloads are read on demand.

use vstd::prelude::*;
use crate::directory::{
    describes_records,
    directory_wf,
    lemma_scan_round_trip,
    lemma_truncated_payload_fails,
    records_bytes,
    scan_directory,
    scan_spec,
    FieldDescriptor,
    Record,
};
use crate::error::VfbError;
use crate::header::{
    lemma_header_ignores_what_follows,
    entry_start,
    header_end,
    header_failure,
    magic_spec,
    read_header,
    tag_at,
    Header,
};
use crate::stream::ByteStream;

verus! {

/// What opening a container of bytes `s` yields besides the header: the
/// directory of the records after it, or the first failure, of the header
/// before any of the directory.
pub open spec fn open_spec(s: Seq<u8>) -> Result<Seq<FieldDescriptor>, VfbError> {
    match header_failure(s, 0) {
        Some(e) => Err(e),
        None => scan_spec(s, header_end(s, 0)),
    }
}

/// What reading the payload that `d` describes from a source of bytes `s`
/// yields: the bytes, or the failure of a source that no longer holds them
/// all.
pub open spec fn read_spec(s: Seq<u8>, d: FieldDescriptor) -> Result<Seq<u8>, VfbError> {
    if d.offset + d.size <= s.len() {
        Ok(s.subrange(d.offset as int, d.offset + d.size))
    } else {
        Err(VfbError::UnexpectedEndOfStream { offset: d.offset })
    }
}

/// The descriptors of `fields` whose key is `key`, in their order.
pub open spec fn with_key(fields: Seq<FieldDescriptor>, key: u16) -> Seq<FieldDescriptor> {
    fields.filter(|d: FieldDescriptor| d.key == key)
}

/// An opened container. It owns its source; header and directory are built
/// once, by `open`, and do not change.
pub struct VfbDocument {
    header: Header,
    fields: Vec<FieldDescriptor>,
    source: ByteStream,
}

impl VfbDocument {
    /// The bytes of the source.
    pub closed spec fn source_bytes(&self) -> Seq<u8> {
        self.source.bytes()
    }

    /// The header.
    pub closed spec fn header_spec(&self) -> Header {
        self.header
    }

    /// The directory.
    pub closed spec fn fields_spec(&self) -> Seq<FieldDescriptor> {
        self.fields@
    }

    /// Header and directory are what the source's bytes say.
    pub open spec fn wf(&self) -> bool {
        &&& self.header_spec().wf()
        &&& self.header_spec().describes(self.source_bytes(), 0)
        &&& open_spec(self.source_bytes()) == Ok::<Seq<FieldDescriptor>, VfbError>(
            self.fields_spec(),
        )
        &&& directory_wf(self.fields_spec(), self.source_bytes().len() as int)
    }

    /// Header and directory are those of `before`, and so are the source's
    /// bytes.
    pub open spec fn unchanged(&self, before: &VfbDocument) -> bool {
        &&& self.source_bytes() == before.source_bytes()
        &&& self.header_spec() == before.header_spec()
        &&& self.fields_spec() == before.fields_spec()
    }

    /// Opens the container that `data` holds: reads the header, then scans
    /// the directory to the end of the stream. Any failure of either gives
    /// that failure and no document.
    pub fn open(data: Vec<u8>) -> (r: Result<VfbDocument, VfbError>)
        ensures
            match r {
                Ok(doc) => doc.wf() && doc.source_bytes() == data@,
                Err(e) => open_spec(data@) == Err::<Seq<FieldDescriptor>, VfbError>(e),
            },
    {
        let mut source = ByteStream::new(data);
        let header = match read_header(&mut source) {
            Ok(h) => h,
            Err(e) => {
                return Err(e);
            },
        };
        let fields = match scan_directory(&mut source) {
            Ok(f) => f,
            Err(e) => {
                return Err(e);
            },
        };
        Ok(VfbDocument { header, fields, source })
    }

    /// The header.
    pub fn header(&self) -> (h: &Header)
        ensures
            *h == self.header_spec(),
    {
        &self.header
    }

    /// The directory: one descriptor for each record, in stream order,
    /// repeated keys kept.
    pub fn fields(&self) -> (f: &Vec<FieldDescriptor>)
        ensures
            f@ == self.fields_spec(),
    {
        &self.fields
    }

    /// The descriptors whose key is `key`, in stream order.
    pub fn fields_by_key(&self, key: u16) -> (found: Vec<FieldDescriptor>)
        ensures
            found@ == with_key(self.fields_spec(), key),
    {
        let mut found: Vec<FieldDescriptor> = Vec::new();
        let mut i: usize = 0;
        while i < self.fields.len()
            invariant
                i <= self.fields.len(),
                found@ == with_key(self.fields@.take(i as int), key),
            decreases self.fields.len() - i,
        {
            let d = self.fields[i];
            proof {
                assert(self.fields@.take(i + 1).drop_last() =~= self.fields@.take(i as int));
                reveal(Seq::filter);
            }
            if d.key == key {
                found.push(d);
            }
            i = i + 1;
        }
        proof {
            assert(self.fields@.take(i as int) =~= self.fields@);
        }
        found
    }

    /// Reads the payload that `d` describes: a seek to its offset, then a
    /// read of exactly its size. The bytes are not interpreted. Only the
    /// source's cursor changes, so the same call gives the same bytes
    /// again. A descriptor of this document's own directory is always
    /// read in full.
    pub fn read(&mut self, d: FieldDescriptor) -> (r: Result<Vec<u8>, VfbError>)
        ensures
            final(self).unchanged(old(self)),
            match r {
                Ok(payload) => read_spec(old(self).source_bytes(), d) == Ok::<Seq<u8>, VfbError>(
                    payload@,
                ),
                Err(e) => read_spec(old(self).source_bytes(), d) == Err::<Seq<u8>, VfbError>(e),
            },
            old(self).wf() && old(self).fields_spec().contains(d) ==> r is Ok,
    {
        self.source.seek(d.offset);
        self.source.read_exact(d.size as usize)
    }
}

/// Reading is repeatable: what a read yields depends on the source's bytes
/// and the descriptor alone, so two documents over the same bytes, wherever
/// their cursors stand, yield the same for the same descriptor.
pub proof fn lemma_read_repeatable(first: VfbDocument, second: VfbDocument, d: FieldDescriptor)
    requires
        second.source_bytes() == first.source_bytes(),
    ensures
        read_spec(second.source_bytes(), d) == read_spec(first.source_bytes(), d),
{
}

/// A container whose tag is not the format's fails to open with that
/// finding, whatever follows the tag: no record is looked at.
pub proof fn lemma_wrong_tag_fails(s: Seq<u8>)
    requires
        s.len() >= 6,
        tag_at(s, 1) != magic_spec(),
    ensures
        open_spec(s) == Err::<Seq<FieldDescriptor>, VfbError>(
            VfbError::InvalidMagic { offset: 1, expected: magic_spec(), observed: tag_at(s, 1) },
        ),
{
}

/// A container made of a whole header and, right after it, the bytes of
/// valid records opens with one descriptor for each record, in order, with
/// the record's key, its payload's size and the offset at which the
/// payload lies, whatever the payloads hold.
pub proof fn lemma_open_round_trip(header: Seq<u8>, records: Seq<Record>)
    requires
        header_failure(header, 0) is None,
        header_end(header, 0) == header.len(),
        forall|i: int| 0 <= i < records.len() ==> (#[trigger] records[i]).valid(),
        header.len() + records_bytes(records).len() <= usize::MAX,
    ensures
        open_spec(header + records_bytes(records)) is Ok,
        describes_records(
            open_spec(header + records_bytes(records))->Ok_0,
            records,
            header + records_bytes(records),
            header.len() as int,
        ),
{
    lemma_header_ignores_what_follows(header, records_bytes(records));
    lemma_scan_round_trip(header, records);
}

/// A container that opens, and whose last record has a payload, does not
/// open once its last byte is gone: the directory is found cut short at
/// the offset of that payload.
pub proof fn lemma_open_truncated_fails(s: Seq<u8>)
    requires
        s.len() <= usize::MAX,
        open_spec(s) is Ok,
        open_spec(s)->Ok_0.len() > 0,
        open_spec(s)->Ok_0.last().size > 0,
    ensures
        open_spec(s.drop_last()) == Err::<Seq<FieldDescriptor>, VfbError>(
            VfbError::CorruptDirectory { offset: open_spec(s)->Ok_0.last().offset },
        ),
{
    reveal_with_fuel(entry_start, 4);
    lemma_truncated_payload_fails(s, header_end(s, 0));
}

} // verus!
