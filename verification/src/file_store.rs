//! The device's model of its file endpoint: a table of named files and at
//! most one open handle.
//!
//! Opening selects an existing file by name, or creates an empty one;
//! writing replaces the contents of the open file; reading fills a prefix
//! of the caller's buffer from the open file; closing drops the handle.
//! Operations with no open handle are silent no-ops.  The spec functions
//! here are the transitions the device driver's file methods are proved
//! against, and `lemma_write_read_round_trip` states the round-trip
//! property of a write command followed by a read of the same name.

use vstd::prelude::*;

verus! {

/// One file of the modelled filesystem.
pub struct FileRecord {
    pub name: Vec<u8>,
    pub contents: Vec<u8>,
}

pub struct FileRecordView {
    pub name: Seq<u8>,
    pub contents: Seq<u8>,
}

impl View for FileRecord {
    type V = FileRecordView;

    open spec fn view(&self) -> FileRecordView {
        FileRecordView { name: self.name@, contents: self.contents@ }
    }
}

/// The mathematical view of a file table.
pub open spec fn records_view(records: Seq<FileRecord>) -> Seq<FileRecordView> {
    records.map_values(|record: FileRecord| record@)
}

/// The file endpoint's state: the table of files, and the open handle as an
/// index into the table.
pub struct StoreView {
    pub records: Seq<FileRecordView>,
    pub open_file: Option<int>,
}

/// The index of the first file of this name, or `-1` when there is none.
pub open spec fn find_record(records: Seq<FileRecordView>, name: Seq<u8>) -> int
    decreases records.len(),
{
    if records.len() == 0 {
        -1
    } else if records[0].name == name {
        0
    } else {
        let rest = find_record(records.drop_first(), name);
        if rest == -1 {
            -1
        } else {
            rest + 1
        }
    }
}

/// `find_record` returns either `-1`, and then no record carries the name,
/// or the index of the first record that does.
pub proof fn lemma_find_record_properties(records: Seq<FileRecordView>, name: Seq<u8>)
    ensures
        -1 <= find_record(records, name) < records.len(),
        find_record(records, name) == -1 ==> forall|i: int|
            0 <= i < records.len() ==> records[i].name != name,
        find_record(records, name) >= 0 ==> {
            &&& records[find_record(records, name)].name == name
            &&& forall|i: int| 0 <= i < find_record(records, name) ==> records[i].name != name
        },
    decreases records.len(),
{
    reveal_with_fuel(find_record, 2);
    if records.len() == 0 {
    } else if records[0].name == name {
        assert(forall|i: int| 0 <= i < 0 ==> records[i].name != name);
    } else {
        let rest = records.drop_first();
        lemma_find_record_properties(rest, name);
        if find_record(records, name) == -1 {
            assert forall|i: int| 0 <= i < records.len() implies records[i].name != name by {
                if i > 0 {
                    assert(records[i] == rest[i - 1]);
                    assert(rest[i - 1].name != name);
                }
            }
        } else {
            let f = find_record(records, name);
            assert(f == find_record(rest, name) + 1);
            assert(records[f] == rest[f - 1]);
            assert forall|i: int| 0 <= i < f implies records[i].name != name by {
                if i > 0 {
                    assert(records[i] == rest[i - 1]);
                    assert(rest[i - 1].name != name);
                }
            }
        }
    }
}

/// `find_record` looks only at the names: tables with pointwise equal names
/// agree on every lookup.
pub proof fn lemma_find_record_names_only(
    left: Seq<FileRecordView>,
    right: Seq<FileRecordView>,
    name: Seq<u8>,
)
    requires
        left.len() == right.len(),
        forall|i: int| 0 <= i < left.len() ==> left[i].name == right[i].name,
    ensures
        find_record(left, name) == find_record(right, name),
    decreases left.len(),
{
    if left.len() == 0 {
    } else {
        assert(left[0].name == right[0].name);
        assert(forall|i: int|
            0 <= i < left.len() - 1 ==> left.drop_first()[i] == left[i + 1]
                && right.drop_first()[i] == right[i + 1]);
        lemma_find_record_names_only(left.drop_first(), right.drop_first(), name);
    }
}

/// Appending a record leaves earlier lookups as they were; a name that was
/// absent is found at the new record exactly when the new record carries it.
pub proof fn lemma_find_record_push(
    records: Seq<FileRecordView>,
    record: FileRecordView,
    name: Seq<u8>,
)
    ensures
        find_record(records, name) >= 0 ==> find_record(records.push(record), name)
            == find_record(records, name),
        find_record(records, name) == -1 && record.name == name ==> find_record(
            records.push(record),
            name,
        ) == records.len(),
        find_record(records, name) == -1 && record.name != name ==> find_record(
            records.push(record),
            name,
        ) == -1,
    decreases records.len(),
{
    reveal_with_fuel(find_record, 2);
    lemma_find_record_properties(records, name);
    let pushed = records.push(record);
    if records.len() == 0 {
        assert(pushed[0] == record);
        if record.name != name {
            assert(pushed.drop_first() =~= Seq::<FileRecordView>::empty());
            assert(find_record(pushed, name) == -1);
        } else {
            assert(find_record(pushed, name) == 0);
        }
    } else {
        assert(pushed[0] == records[0]);
        if records[0].name == name {
            assert(find_record(records, name) == 0);
            assert(find_record(pushed, name) == 0);
        } else {
            assert(pushed.drop_first() =~= records.drop_first().push(record));
            lemma_find_record_push(records.drop_first(), record, name);
            lemma_find_record_properties(records.drop_first(), name);
            let rest = find_record(records.drop_first(), name);
            let pushed_rest = find_record(pushed.drop_first(), name);
            if rest >= 0 {
                assert(pushed_rest == rest);
                assert(find_record(pushed, name) == rest + 1);
                assert(find_record(records, name) == rest + 1);
            } else if record.name == name {
                assert(pushed_rest == records.drop_first().len());
                assert(find_record(pushed, name) == pushed_rest + 1);
            } else {
                assert(pushed_rest == -1);
            }
        }
    }
}

/// Opening a file: an existing name is selected as it stands; an absent
/// name creates an empty file at the end of the table.
pub open spec fn open_spec(store: StoreView, name: Seq<u8>) -> StoreView {
    let found = find_record(store.records, name);
    if found >= 0 {
        StoreView { records: store.records, open_file: Some(found) }
    } else {
        StoreView {
            records: store.records.push(FileRecordView { name, contents: Seq::empty() }),
            open_file: Some(store.records.len() as int),
        }
    }
}

/// Writing replaces the contents of the open file; with no open file it is
/// a silent no-op.
///
/// The block layer sends exactly one write-contents descriptor per open,
/// and a write-direction command starts the file afresh, so a replacement
/// and an append-to-empty coincide on the protocol's traffic.  The two
/// differ only when several write-contents descriptors arrive under one
/// open: a device that appends at a file cursor concatenates them, while
/// this model keeps the last.  Replacement is the chosen semantics.
pub open spec fn write_spec(store: StoreView, contents: Seq<u8>) -> StoreView {
    match store.open_file {
        Some(j) => if 0 <= j < store.records.len() {
            StoreView {
                records: store.records.update(
                    j,
                    FileRecordView { name: store.records[j].name, contents },
                ),
                open_file: store.open_file,
            }
        } else {
            store
        },
        None => store,
    }
}

/// Reading fills a prefix of the caller's buffer from the open file's
/// contents: as many bytes as the buffer, the requested length and the file
/// all allow; the rest of the buffer is kept.  With no open file the buffer
/// is unchanged.
pub open spec fn read_spec(store: StoreView, buffer: Seq<u8>, length: int) -> Seq<u8> {
    match store.open_file {
        Some(j) => if 0 <= j < store.records.len() {
            let contents = store.records[j].contents;
            let limit = if length < buffer.len() {
                length
            } else {
                buffer.len() as int
            };
            let count = if contents.len() < limit {
                contents.len() as int
            } else {
                limit
            };
            Seq::new(
                buffer.len(),
                |i: int|
                    if i < count {
                        contents[i]
                    } else {
                        buffer[i]
                    },
            )
        } else {
            buffer
        },
        None => buffer,
    }
}

/// Closing drops the open handle; the table is kept.
pub open spec fn close_spec(store: StoreView) -> StoreView {
    StoreView { records: store.records, open_file: None }
}

/// The block-protocol round trip: writing a file (open, write contents,
/// close) and then opening it again by the same name reads back exactly the
/// written contents, whatever the store held before, provided the read
/// buffer and the requested length cover them.  The filled prefix of the
/// read buffer is the written contents.
pub proof fn lemma_write_read_round_trip(
    store: StoreView,
    name: Seq<u8>,
    contents: Seq<u8>,
    buffer: Seq<u8>,
    length: int,
)
    requires
        contents.len() <= buffer.len(),
        contents.len() <= length,
    ensures
        ({
            let written = close_spec(write_spec(open_spec(store, name), contents));
            let reread = read_spec(open_spec(written, name), buffer, length);
            reread.take(contents.len() as int) == contents
        }),
{
    let found = find_record(store.records, name);
    lemma_find_record_properties(store.records, name);
    let opened = open_spec(store, name);
    let j = opened.open_file->Some_0;
    assert(0 <= j < opened.records.len());
    assert(opened.records[j].name == name);
    if found == -1 {
        lemma_find_record_push(
            store.records,
            FileRecordView { name, contents: Seq::empty() },
            name,
        );
    }
    let written = close_spec(write_spec(opened, contents));
    assert(written.records[j] == (FileRecordView { name, contents }));
    assert(written.records.len() == opened.records.len());
    assert(forall|i: int|
        0 <= i < written.records.len() ==> written.records[i].name == opened.records[i].name);
    lemma_find_record_names_only(written.records, opened.records, name);
    lemma_find_record_properties(opened.records, name);
    assert(find_record(opened.records, name) == j) by {
        if found >= 0 {
            lemma_find_record_names_only(opened.records, store.records, name);
        } else {
            lemma_find_record_push(
                store.records,
                FileRecordView { name, contents: Seq::empty() },
                name,
            );
        }
    }
    let reopened = open_spec(written, name);
    assert(reopened.open_file == Some(j));
    assert(reopened.records == written.records);
    let reread = read_spec(reopened, buffer, length);
    assert(reread.take(contents.len() as int) =~= contents);
}

} // verus!
