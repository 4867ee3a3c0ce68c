//! Reading filesystem answers out of query results.
//!
//! A backend over tables asks its questions as queries and gets record
//! batches back: runs of rows, cut into columns.  A column holds unsigned
//! numbers, text or bytes, and any cell may be empty.  The functions here
//! take the cells of one column out of all batches, and make metadata,
//! listings and file content of them.

use crate::async_filesystem::{views, Attr, Lookup, ReadDir, ReadDirView};
use crate::attr::{FileAttr, FileType, Timestamp, Ttl};
use crate::content::{read_at, window};
use crate::identity::ROOT_INO;
use crate::listing::after;
use crate::text::same_text;
use vstd::prelude::*;
use vstd::slice::slice_to_vec;

verus! {

/// The failures of a backend over tables.
#[derive(Clone, Debug, PartialEq, Eq)]
pub enum DatafusionFsError {
    /// The query engine failed; its message is kept.
    DatafusionError(String),
    /// The tables hold no such node.
    NotFound,
    /// The operation is not offered.
    NotImplemented,
    /// The node is no directory.
    NotADirectory,
    /// The node is a directory, not a file.
    NotAFile,
}

/// One column of a record batch.
#[derive(Clone, Debug, PartialEq, Eq)]
pub enum Column {
    /// Unsigned 64-bit numbers.
    UInt64(Vec<Option<u64>>),
    /// Text.
    Utf8(Vec<Option<String>>),
    /// Bytes.
    Binary(Vec<Option<Vec<u8>>>),
    /// Cells of a type that no answer is read from.
    Other,
}

/// A run of rows, cut into columns.
#[derive(Clone, Debug, PartialEq, Eq)]
pub struct RecordBatch {
    /// The columns, each with one cell for each row.
    pub columns: Vec<Column>,
}

/// The seconds for which the kernel may cache metadata read from tables.
pub const TTL_SECS: u64 = 3600;

/// The kind that a name stands for, where it stands for one.
pub open spec fn kind_named(name: Seq<char>) -> Option<FileType> {
    if name == "Directory"@ {
        Some(FileType::Directory)
    } else if name == "RegularFile"@ {
        Some(FileType::RegularFile)
    } else if name == "Symlink"@ {
        Some(FileType::Symlink)
    } else if name == "Socket"@ {
        Some(FileType::Socket)
    } else if name == "CharDevice"@ {
        Some(FileType::CharDevice)
    } else if name == "BlockDevice"@ {
        Some(FileType::BlockDevice)
    } else if name == "NamePipe"@ {
        Some(FileType::NamedPipe)
    } else {
        None
    }
}

/// The kind that a cell of a kind column stands for.
pub open spec fn kind_in(cell: Option<Seq<char>>) -> Option<FileType> {
    match cell {
        Some(name) => kind_named(name),
        None => None,
    }
}

/// The kind that the name `s` stands for, or `None` where it is no name of a
/// kind.
pub fn parse_file_type(s: &str) -> (kind: Option<FileType>)
    ensures
        kind == kind_named(s@),
{
    if same_text(s, "Directory") {
        Some(FileType::Directory)
    } else if same_text(s, "RegularFile") {
        Some(FileType::RegularFile)
    } else if same_text(s, "Symlink") {
        Some(FileType::Symlink)
    } else if same_text(s, "Socket") {
        Some(FileType::Socket)
    } else if same_text(s, "CharDevice") {
        Some(FileType::CharDevice)
    } else if same_text(s, "BlockDevice") {
        Some(FileType::BlockDevice)
    } else if same_text(s, "NamePipe") {
        Some(FileType::NamedPipe)
    } else {
        None
    }
}

/// A text cell as a mathematical value.
pub open spec fn text_of(cell: Option<String>) -> Option<Seq<char>> {
    match cell {
        Some(s) => Some(s@),
        None => None,
    }
}

/// A cell of bytes as a mathematical value.
pub open spec fn bytes_of(cell: Option<Vec<u8>>) -> Option<Seq<u8>> {
    match cell {
        Some(b) => Some(b@),
        None => None,
    }
}

/// The cells of a column of numbers; of a column of another type, none.
pub open spec fn column_uints(column: Column) -> Seq<Option<u64>> {
    match column {
        Column::UInt64(cells) => cells@,
        _ => Seq::empty(),
    }
}

/// Every batch has a column numbered `column`.
pub open spec fn has_column(batches: Seq<RecordBatch>, column: int) -> bool {
    forall|b: int| 0 <= b < batches.len() ==> 0 <= column < (#[trigger] batches[b]).columns.len()
}

/// A type of cell that a column can hold.
pub trait Cell: Sized {
    /// A cell of this type as a mathematical value.
    type Model;

    /// This cell as a mathematical value.
    spec fn model(&self) -> Self::Model;

    /// The cells of a column of this type; of a column of another type, none.
    spec fn cells_in(column: Column) -> Seq<Option<Self>>;

    /// The cells of `column`, where it is a column of this type.
    fn cells_of(column: &Column) -> (cells: Option<&Vec<Option<Self>>>)
        ensures
            cells matches Some(v) ==> v@ == Self::cells_in(*column),
            cells is None ==> Self::cells_in(*column) == Seq::<Option<Self>>::empty(),
    ;

    /// A copy of this cell.
    fn duplicate(&self) -> (copy: Self)
        ensures
            copy.model() == self.model(),
    ;
}

impl Cell for u64 {
    type Model = u64;

    open spec fn model(&self) -> u64 {
        *self
    }

    open spec fn cells_in(column: Column) -> Seq<Option<u64>> {
        column_uints(column)
    }

    fn cells_of(column: &Column) -> (cells: Option<&Vec<Option<u64>>>) {
        match column {
            Column::UInt64(cells) => Some(cells),
            _ => None,
        }
    }

    fn duplicate(&self) -> (copy: u64) {
        *self
    }
}

impl Cell for String {
    type Model = Seq<char>;

    open spec fn model(&self) -> Seq<char> {
        self@
    }

    open spec fn cells_in(column: Column) -> Seq<Option<String>> {
        match column {
            Column::Utf8(cells) => cells@,
            _ => Seq::empty(),
        }
    }

    fn cells_of(column: &Column) -> (cells: Option<&Vec<Option<String>>>) {
        match column {
            Column::Utf8(cells) => Some(cells),
            _ => None,
        }
    }

    fn duplicate(&self) -> (copy: String) {
        self.clone()
    }
}

impl Cell for Vec<u8> {
    type Model = Seq<u8>;

    open spec fn model(&self) -> Seq<u8> {
        self@
    }

    open spec fn cells_in(column: Column) -> Seq<Option<Vec<u8>>> {
        match column {
            Column::Binary(cells) => cells@,
            _ => Seq::empty(),
        }
    }

    fn cells_of(column: &Column) -> (cells: Option<&Vec<Option<Vec<u8>>>>) {
        match column {
            Column::Binary(cells) => Some(cells),
            _ => None,
        }
    }

    fn duplicate(&self) -> (copy: Vec<u8>) {
        slice_to_vec(self.as_slice())
    }
}

/// A cell that may be empty, as a mathematical value.
pub open spec fn model_of<T: Cell>(cell: Option<T>) -> Option<T::Model> {
    match cell {
        Some(c) => Some(c.model()),
        None => None,
    }
}

/// Cells as mathematical values, in order.
pub open spec fn models<T: Cell>(cells: Seq<Option<T>>) -> Seq<Option<T::Model>> {
    cells.map_values(|c: Option<T>| model_of(c))
}

/// The cells of one type in the column numbered `column`, batch after batch.
/// A batch whose column is of another type adds none.
pub open spec fn all_cells<T: Cell>(batches: Seq<RecordBatch>, column: int) -> Seq<
    Option<T::Model>,
>
    decreases batches.len(),
{
    if batches.len() == 0 {
        Seq::empty()
    } else {
        all_cells::<T>(batches.drop_last(), column) + models(
            T::cells_in(batches.last().columns[column]),
        )
    }
}

/// The numbers in the column numbered `column`, batch after batch.
pub open spec fn all_uints(batches: Seq<RecordBatch>, column: int) -> Seq<Option<u64>> {
    all_cells::<u64>(batches, column)
}

/// The texts in the column numbered `column`, batch after batch.
pub open spec fn all_texts(batches: Seq<RecordBatch>, column: int) -> Seq<Option<Seq<char>>> {
    all_cells::<String>(batches, column)
}

/// The byte strings in the column numbered `column`, batch after batch.
pub open spec fn all_blobs(batches: Seq<RecordBatch>, column: int) -> Seq<Option<Seq<u8>>> {
    all_cells::<Vec<u8>>(batches, column)
}

/// Takes the cells of one type out of the column numbered `column` of all
/// batches.
pub fn gather<T: Cell>(batches: &Vec<RecordBatch>, column: usize) -> (cells: Vec<Option<T>>)
    requires
        has_column(batches@, column as int),
    ensures
        models(cells@) == all_cells::<T>(batches@, column as int),
{
    let mut cells: Vec<Option<T>> = Vec::new();
    let mut b: usize = 0;
    proof {
        assert(batches@.take(0) =~= Seq::<RecordBatch>::empty());
        assert(models(cells@) =~= Seq::<Option<T::Model>>::empty());
    }
    while b < batches.len()
        invariant
            b <= batches.len(),
            has_column(batches@, column as int),
            models(cells@) == all_cells::<T>(batches@.take(b as int), column as int),
        decreases batches.len() - b,
    {
        let ghost before = models(cells@);
        proof {
            assert(batches@.take(b + 1).drop_last() =~= batches@.take(b as int));
            assert(batches@.take(b + 1).last() == batches@[b as int]);
        }
        match T::cells_of(&batches[b].columns[column]) {
            Some(values) => {
                let ghost found = models(values@);
                let mut j: usize = 0;
                proof {
                    assert(before + found.take(0) =~= before);
                }
                while j < values.len()
                    invariant
                        j <= values.len(),
                        found == models(values@),
                        models(cells@) == before + found.take(j as int),
                    decreases values.len() - j,
                {
                    let ghost held = models(cells@);
                    let cell = match &values[j] {
                        Some(c) => Some(c.duplicate()),
                        None => None,
                    };
                    assert(model_of(cell) == found[j as int]);
                    cells.push(cell);
                    proof {
                        assert(models(cells@) =~= held.push(found[j as int]));
                        assert(before + found.take(j + 1) =~= (before + found.take(j as int)).push(
                            found[j as int],
                        ));
                    }
                    j += 1;
                }
                proof {
                    assert(found.take(j as int) =~= found);
                }
            },
            None => {
                proof {
                    assert(before + models(T::cells_in(batches@[b as int].columns[column as int]))
                        =~= before);
                }
            },
        }
        b += 1;
    }
    proof {
        assert(batches@.take(b as int) =~= batches@);
    }
    cells
}

/// Taking one column out of a run of record batches.
pub trait BatchesIterators {
    /// The batches.
    spec fn batches(&self) -> Seq<RecordBatch>;

    /// The identities in the column numbered `column`.
    fn inos(&self, column: usize) -> (cells: Vec<Option<u64>>)
        requires
            has_column(self.batches(), column as int),
        ensures
            cells@ == all_uints(self.batches(), column as int),
    ;

    /// The kinds named in the column numbered `column`; a cell that names no
    /// kind counts as empty.
    fn kinds(&self, column: usize) -> (cells: Vec<Option<FileType>>)
        requires
            has_column(self.batches(), column as int),
        ensures
            cells@ == all_texts(self.batches(), column as int).map_values(
                |c: Option<Seq<char>>| kind_in(c),
            ),
    ;

    /// The names in the column numbered `column`.
    fn names(&self, column: usize) -> (cells: Vec<Option<String>>)
        requires
            has_column(self.batches(), column as int),
        ensures
            cells@.map_values(|c: Option<String>| text_of(c)) == all_texts(
                self.batches(),
                column as int,
            ),
    ;

    /// The byte strings in the column numbered `column`.
    fn content(&self, column: usize) -> (cells: Vec<Option<Vec<u8>>>)
        requires
            has_column(self.batches(), column as int),
        ensures
            cells@.map_values(|c: Option<Vec<u8>>| bytes_of(c)) == all_blobs(
                self.batches(),
                column as int,
            ),
    ;
}

impl BatchesIterators for Vec<RecordBatch> {
    open spec fn batches(&self) -> Seq<RecordBatch> {
        self@
    }

    fn inos(&self, column: usize) -> (cells: Vec<Option<u64>>) {
        let cells = gather::<u64>(self, column);
        assert(cells@ =~= models(cells@));
        cells
    }

    fn kinds(&self, column: usize) -> (cells: Vec<Option<FileType>>) {
        let names = self.names(column);
        let ghost texts = all_texts(self@, column as int);
        let mut cells: Vec<Option<FileType>> = Vec::new();
        let mut i: usize = 0;
        while i < names.len()
            invariant
                i <= names.len(),
                names@.map_values(|c: Option<String>| text_of(c)) == texts,
                cells@ == texts.take(i as int).map_values(|c: Option<Seq<char>>| kind_in(c)),
            decreases names.len() - i,
        {
            proof {
                assert(texts[i as int] == text_of(names@[i as int]));
                assert(texts.take(i + 1).map_values(|c: Option<Seq<char>>| kind_in(c))
                    =~= texts.take(i as int).map_values(|c: Option<Seq<char>>| kind_in(c)).push(
                    kind_in(texts[i as int]),
                ));
            }
            let kind = match &names[i] {
                Some(name) => parse_file_type(name.as_str()),
                None => None,
            };
            cells.push(kind);
            i += 1;
        }
        proof {
            assert(texts.take(i as int) =~= texts);
        }
        cells
    }

    fn names(&self, column: usize) -> (cells: Vec<Option<String>>) {
        let cells = gather::<String>(self, column);
        assert(cells@.map_values(|c: Option<String>| text_of(c)) =~= models(cells@));
        cells
    }

    fn content(&self, column: usize) -> (cells: Vec<Option<Vec<u8>>>) {
        let cells = gather::<Vec<u8>>(self, column);
        assert(cells@.map_values(|c: Option<Vec<u8>>| bytes_of(c)) =~= models(cells@));
        cells
    }
}

/// The metadata of a node of the given identity, kind and size, as a backend
/// over tables reports it.
pub open spec fn table_attr(ino: u64, kind: FileType, size: u64) -> FileAttr {
    FileAttr {
        ino,
        size,
        blocks: 1,
        atime: Timestamp { secs: 0, nanos: 0 },
        mtime: Timestamp { secs: 0, nanos: 0 },
        ctime: Timestamp { secs: 0, nanos: 0 },
        crtime: Timestamp { secs: 0, nanos: 0 },
        kind,
        perm: 0o755,
        nlink: 2,
        uid: 501,
        gid: 20,
        rdev: 0,
        blksize: 512,
        flags: 0,
    }
}

/// The metadata that a row of a metadata query stands for: a row with an
/// identity and the name of a kind stands for a node of that identity and
/// kind.  The node's size is the row's size cell, and zero where that cell is
/// empty.
pub open spec fn row_attr(ino: Option<u64>, kind: Option<Seq<char>>, size: Option<u64>) -> Option<
    FileAttr,
> {
    match (ino, kind_in(kind)) {
        (Some(i), Some(k)) => Some(
            table_attr(
                i,
                k,
                match size {
                    Some(n) => n,
                    None => 0,
                },
            ),
        ),
        _ => None,
    }
}

/// The cell numbered `i`, which is empty where the column is too short.
pub open spec fn cell_at(cells: Seq<Option<u64>>, i: int) -> Option<u64> {
    if 0 <= i < cells.len() {
        cells[i]
    } else {
        None
    }
}

/// The metadata of the first row from the row numbered `from` on that stands
/// for a node, among the rows that have a cell for identity and kind.
pub open spec fn first_row_attr_from(
    inos: Seq<Option<u64>>,
    kinds: Seq<Option<Seq<char>>>,
    sizes: Seq<Option<u64>>,
    from: int,
) -> Option<FileAttr>
    decreases inos.len() - from,
{
    if from < 0 || from >= inos.len() || from >= kinds.len() {
        None
    } else {
        match row_attr(inos[from], kinds[from], cell_at(sizes, from)) {
            Some(attr) => Some(attr),
            None => first_row_attr_from(inos, kinds, sizes, from + 1),
        }
    }
}

/// The metadata of the first row that stands for a node.
pub open spec fn first_row_attr(
    inos: Seq<Option<u64>>,
    kinds: Seq<Option<Seq<char>>>,
    sizes: Seq<Option<u64>>,
) -> Option<FileAttr> {
    first_row_attr_from(inos, kinds, sizes, 0)
}

/// The size cells of a batch of a metadata query: the numbers in its third
/// column, and none where it has no third column or one of another type.
pub open spec fn batch_sizes(batch: RecordBatch) -> Seq<Option<u64>> {
    if batch.columns.len() > 2 {
        column_uints(batch.columns[2])
    } else {
        Seq::empty()
    }
}

/// The metadata that a batch of a metadata query gives: that of its first
/// row that stands for a node, where its first column holds identities and
/// its second the names of kinds.  Sizes are read from its third column.
pub open spec fn batch_attr(batch: RecordBatch) -> Option<FileAttr> {
    match (batch.columns[0], batch.columns[1]) {
        (Column::UInt64(inos), Column::Utf8(kinds)) => first_row_attr(
            inos@,
            kinds@.map_values(|c: Option<String>| text_of(c)),
            batch_sizes(batch),
        ),
        _ => None,
    }
}

/// The metadata that the result of a metadata query gives: that of the first
/// batch that gives any.
pub open spec fn first_attr(batches: Seq<RecordBatch>) -> Option<FileAttr>
    decreases batches.len(),
{
    if batches.len() == 0 {
        None
    } else {
        match batch_attr(batches[0]) {
            Some(attr) => Some(attr),
            None => first_attr(batches.drop_first()),
        }
    }
}

fn make_attr(ino: u64, kind: FileType, size: u64) -> (attr: FileAttr)
    ensures
        attr == table_attr(ino, kind, size),
{
    FileAttr {
        ino,
        size,
        blocks: 1,
        atime: Timestamp::epoch(),
        mtime: Timestamp::epoch(),
        ctime: Timestamp::epoch(),
        crtime: Timestamp::epoch(),
        kind,
        perm: 0o755,
        nlink: 2,
        uid: 501,
        gid: 20,
        rdev: 0,
        blksize: 512,
        flags: 0,
    }
}

fn attr_in_batch(batch: &RecordBatch) -> (found: Option<FileAttr>)
    requires
        batch.columns.len() >= 2,
    ensures
        found == batch_attr(*batch),
{
    let none: Vec<Option<u64>> = Vec::new();
    let sizes: &Vec<Option<u64>> = if batch.columns.len() > 2 {
        match &batch.columns[2] {
            Column::UInt64(cells) => cells,
            _ => &none,
        }
    } else {
        &none
    };
    assert(sizes@ =~= batch_sizes(*batch));
    match (&batch.columns[0], &batch.columns[1]) {
        (Column::UInt64(inos), Column::Utf8(kinds)) => {
            let ghost texts = kinds@.map_values(|c: Option<String>| text_of(c));
            let mut i: usize = 0;
            while i < inos.len() && i < kinds.len()
                invariant
                    i <= inos.len(),
                    i <= kinds.len(),
                    texts == kinds@.map_values(|c: Option<String>| text_of(c)),
                    batch_attr(*batch) == first_row_attr(inos@, texts, sizes@),
                    first_row_attr(inos@, texts, sizes@) == first_row_attr_from(
                        inos@,
                        texts,
                        sizes@,
                        i as int,
                    ),
                decreases inos.len() - i,
            {
                proof {
                    assert(texts[i as int] == text_of(kinds@[i as int]));
                }
                let kind = match &kinds[i] {
                    Some(name) => parse_file_type(name.as_str()),
                    None => None,
                };
                let size: u64 = if i < sizes.len() {
                    match sizes[i] {
                        Some(n) => n,
                        None => 0,
                    }
                } else {
                    0
                };
                match (inos[i], kind) {
                    (Some(ino), Some(k)) => {
                        return Some(make_attr(ino, k, size));
                    },
                    _ => {},
                }
                i += 1;
            }
            None
        },
        _ => None,
    }
}

/// Reads the answer to `getattr` or `lookup` out of the result of a metadata
/// query: the metadata of the first row that stands for a node, to be cached
/// for an hour.  Where no row does, the node is not found.
pub fn to_file_attr(batches: Vec<RecordBatch>) -> (found: Result<Attr, DatafusionFsError>)
    requires
        has_column(batches@, 0),
        has_column(batches@, 1),
    ensures
        found == attr_answer(batches@),
{
    let mut b: usize = 0;
    proof {
        assert(batches@.skip(0) =~= batches@);
    }
    while b < batches.len()
        invariant
            b <= batches.len(),
            has_column(batches@, 0),
            has_column(batches@, 1),
            first_attr(batches@) == first_attr(batches@.skip(b as int)),
        decreases batches.len() - b,
    {
        proof {
            assert(batches@.skip(b as int).drop_first() =~= batches@.skip(b + 1));
            assert(batches@.skip(b as int)[0] == batches@[b as int]);
        }
        match attr_in_batch(&batches[b]) {
            Some(attr) => {
                return Ok(Attr { ttl: Ttl::from_secs(TTL_SECS), attr });
            },
            None => {},
        }
        b += 1;
    }
    Err(DatafusionFsError::NotFound)
}

/// What the result of a metadata query says of a node: its metadata, or that
/// it is not found.
pub open spec fn attr_answer(batches: Seq<RecordBatch>) -> Result<Attr, DatafusionFsError> {
    match first_attr(batches) {
        Some(attr) => Ok(Attr { ttl: Ttl { secs: TTL_SECS, nanos: 0 }, attr }),
        None => Err(DatafusionFsError::NotFound),
    }
}

/// The answer to `getattr` for the node `ino`, given the result of the
/// metadata query for it.  The root is there whatever the tables hold, and
/// is a directory: where they have no row for it, or a row that does not
/// stand for a directory of the root's identity, the root is an empty
/// directory.  Any other node is what the tables say of it.
pub open spec fn getattr_answer_of(ino: u64, batches: Seq<RecordBatch>) -> Result<
    Attr,
    DatafusionFsError,
> {
    if ino != ROOT_INO {
        attr_answer(batches)
    } else {
        match first_attr(batches) {
            Some(attr) if attr.ino == ROOT_INO && attr.kind == FileType::Directory => Ok(
                Attr { ttl: Ttl { secs: TTL_SECS, nanos: 0 }, attr },
            ),
            _ => Ok(
                Attr {
                    ttl: Ttl { secs: TTL_SECS, nanos: 0 },
                    attr: table_attr(ROOT_INO, FileType::Directory, 0),
                },
            ),
        }
    }
}

/// Makes the answer to `getattr` for the node `ino` of the result of the
/// metadata query for it.
pub fn getattr_answer(ino: u64, batches: Vec<RecordBatch>) -> (found: Result<
    Attr,
    DatafusionFsError,
>)
    requires
        has_column(batches@, 0),
        has_column(batches@, 1),
    ensures
        found == getattr_answer_of(ino, batches@),
        ino == ROOT_INO ==> (found matches Ok(a) && a.attr.ino == ROOT_INO && a.attr.kind
            == FileType::Directory),
{
    let found = to_file_attr(batches);
    if ino != ROOT_INO {
        return found;
    }
    match found {
        Ok(a) => {
            if a.attr.ino == ROOT_INO && is_directory(a.attr.kind) {
                Ok(a)
            } else {
                Ok(
                    Attr {
                        ttl: Ttl::from_secs(TTL_SECS),
                        attr: make_attr(ROOT_INO, FileType::Directory, 0),
                    },
                )
            }
        },
        Err(_) => Ok(
            Attr {
                ttl: Ttl::from_secs(TTL_SECS),
                attr: make_attr(ROOT_INO, FileType::Directory, 0),
            },
        ),
    }
}

/// Whether a node of the given kind is a directory.
pub fn is_directory(kind: FileType) -> (yes: bool)
    ensures
        yes == (kind == FileType::Directory),
{
    match kind {
        FileType::Directory => true,
        _ => false,
    }
}

/// The answer to `lookup`, given the result of the metadata query for the
/// child: the child's metadata where the tables have a row for it, and else
/// that it is not found.  Identities come from the tables and are not given
/// a second time, so the generation is zero.
pub open spec fn lookup_answer_of(batches: Seq<RecordBatch>) -> Result<Lookup, DatafusionFsError> {
    match first_attr(batches) {
        Some(attr) => Ok(Lookup { ttl: Ttl { secs: TTL_SECS, nanos: 0 }, attr, generation: 0 }),
        None => Err(DatafusionFsError::NotFound),
    }
}

/// Makes the answer to `lookup` of the result of the metadata query for the
/// child.
pub fn lookup_answer(batches: Vec<RecordBatch>) -> (found: Result<Lookup, DatafusionFsError>)
    requires
        has_column(batches@, 0),
        has_column(batches@, 1),
    ensures
        found == lookup_answer_of(batches@),
{
    match to_file_attr(batches) {
        Ok(a) => Ok(Lookup { ttl: a.ttl, attr: a.attr, generation: 0 }),
        Err(_) => Err(DatafusionFsError::NotFound),
    }
}

/// The rows of a listing that the first `n` rows of a listing query stand
/// for, where the query skipped `base` rows: a row with an identity, a kind
/// and a name stands for a child, and its offset is its place among all rows,
/// counted from one.
pub open spec fn listing_rows(
    inos: Seq<Option<u64>>,
    kinds: Seq<Option<FileType>>,
    names: Seq<Option<Seq<char>>>,
    n: int,
    base: int,
) -> Seq<ReadDirView>
    decreases n,
{
    if n <= 0 {
        Seq::empty()
    } else {
        let front = listing_rows(inos, kinds, names, n - 1, base);
        match (inos[n - 1], kinds[n - 1], names[n - 1]) {
            (Some(ino), Some(kind), Some(name)) => front.push(
                ReadDirView { ino, offset: (base + n) as i64, file_type: kind, name },
            ),
            _ => front,
        }
    }
}

/// The least of three lengths.
pub open spec fn shortest(a: int, b: int, c: int) -> int {
    if a <= b && a <= c {
        a
    } else if b <= c {
        b
    } else {
        c
    }
}

/// The number of rows that a listing query skips for a resume offset: as
/// many as the offset says, and none for an offset below zero.
pub open spec fn skipped(offset: int) -> int {
    if offset < 0 {
        0
    } else {
        offset
    }
}

/// Makes the answer to `readdir` with resume offset `offset` of the cells of
/// a listing query that skipped as many rows as the offset says.  Rows are
/// taken as long as all three columns have a cell for them.
pub fn directory_rows(
    inos: &Vec<Option<u64>>,
    kinds: &Vec<Option<FileType>>,
    names: &Vec<Option<String>>,
    offset: i64,
) -> (rows: Vec<ReadDir>)
    requires
        skipped(offset as int) + inos.len() <= i64::MAX,
    ensures
        views(rows@) == listing_rows(
            inos@,
            kinds@,
            names@.map_values(|c: Option<String>| text_of(c)),
            shortest(inos.len() as int, kinds.len() as int, names.len() as int),
            skipped(offset as int),
        ),
{
    let ghost texts = names@.map_values(|c: Option<String>| text_of(c));
    let base: i64 = if offset < 0 {
        0
    } else {
        offset
    };
    let mut rows: Vec<ReadDir> = Vec::new();
    let mut i: usize = 0;
    proof {
        assert(views(rows@) =~= listing_rows(inos@, kinds@, texts, 0, base as int));
    }
    while i < inos.len() && i < kinds.len() && i < names.len()
        invariant
            i <= inos.len(),
            i <= kinds.len(),
            i <= names.len(),
            0 <= base,
            base + inos.len() <= i64::MAX,
            texts == names@.map_values(|c: Option<String>| text_of(c)),
            views(rows@) == listing_rows(inos@, kinds@, texts, i as int, base as int),
        decreases inos.len() - i,
    {
        let ghost before = views(rows@);
        proof {
            assert(texts[i as int] == text_of(names@[i as int]));
        }
        match (inos[i], kinds[i], &names[i]) {
            (Some(ino), Some(kind), Some(name)) => {
                rows.push(
                    ReadDir {
                        ino,
                        offset: base + (i as i64) + 1,
                        file_type: kind,
                        name: name.clone(),
                    },
                );
                proof {
                    assert(views(rows@) =~= before.push(
                        ReadDirView {
                            ino,
                            offset: (base + i + 1) as i64,
                            file_type: kind,
                            name: name@,
                        },
                    ));
                }
            },
            _ => {},
        }
        i += 1;
    }
    rows
}

/// The first cell that is not empty.
pub open spec fn first_present(cells: Seq<Option<Seq<u8>>>) -> Option<Seq<u8>>
    decreases cells.len(),
{
    if cells.len() == 0 {
        None
    } else {
        match cells[0] {
            Some(bytes) => Some(bytes),
            None => first_present(cells.drop_first()),
        }
    }
}

/// Makes the answer to `read` of the cells of a content query: at most
/// `size` bytes, from `offset` on, of the first content there is.  Where
/// there is none, the file is not found.
pub fn file_content(cells: &Vec<Option<Vec<u8>>>, offset: i64, size: u32) -> (data: Result<
    Vec<u8>,
    DatafusionFsError,
>)
    ensures
        first_present(cells@.map_values(|c: Option<Vec<u8>>| bytes_of(c))) matches Some(bytes)
            ==> (data matches Ok(d) && d@ == window(bytes, offset as int, size as int)),
        first_present(cells@.map_values(|c: Option<Vec<u8>>| bytes_of(c))) is None ==> data
            == Err::<Vec<u8>, DatafusionFsError>(DatafusionFsError::NotFound),
{
    let ghost blobs = cells@.map_values(|c: Option<Vec<u8>>| bytes_of(c));
    let mut i: usize = 0;
    proof {
        assert(blobs.skip(0) =~= blobs);
    }
    while i < cells.len()
        invariant
            i <= cells.len(),
            blobs == cells@.map_values(|c: Option<Vec<u8>>| bytes_of(c)),
            first_present(blobs) == first_present(blobs.skip(i as int)),
        decreases cells.len() - i,
    {
        proof {
            assert(blobs.skip(i as int).drop_first() =~= blobs.skip(i + 1));
            assert(blobs.skip(i as int)[0] == bytes_of(cells@[i as int]));
        }
        match &cells[i] {
            Some(bytes) => {
                return Ok(read_at(bytes.as_slice(), offset, size));
            },
            None => {},
        }
        i += 1;
    }
    Err(DatafusionFsError::NotFound)
}

/// The listing made of a query's rows is ordered and lies wholly after the
/// rows that the query skipped, so that the next call can resume after any of
/// its rows.
pub proof fn lemma_listing_rows_ordered(
    inos: Seq<Option<u64>>,
    kinds: Seq<Option<FileType>>,
    names: Seq<Option<Seq<char>>>,
    n: int,
    base: int,
)
    requires
        0 <= base,
        base + n <= i64::MAX,
    ensures
        crate::listing::ordered(listing_rows(inos, kinds, names, n, base)),
        forall|i: int|
            0 <= i < listing_rows(inos, kinds, names, n, base).len() ==> base < (
            #[trigger] listing_rows(inos, kinds, names, n, base)[i]).offset <= base + n,
    decreases n,
{
    if n > 0 {
        lemma_listing_rows_ordered(inos, kinds, names, n - 1, base);
    }
}

/// Makes the answer to `readdir` for a node of kind `kind`: its listing
/// where it is a directory, and a failure where it is none.
pub fn readdir_answer(
    kind: FileType,
    inos: &Vec<Option<u64>>,
    kinds: &Vec<Option<FileType>>,
    names: &Vec<Option<String>>,
    offset: i64,
) -> (listed: Result<Vec<ReadDir>, DatafusionFsError>)
    requires
        skipped(offset as int) + inos.len() <= i64::MAX,
    ensures
        kind != FileType::Directory ==> listed == Err::<Vec<ReadDir>, DatafusionFsError>(
            DatafusionFsError::NotADirectory,
        ),
        kind == FileType::Directory ==> (listed matches Ok(rows) && views(rows@) == listing_rows(
            inos@,
            kinds@,
            names@.map_values(|c: Option<String>| text_of(c)),
            shortest(inos.len() as int, kinds.len() as int, names.len() as int),
            skipped(offset as int),
        )),
{
    if is_directory(kind) {
        Ok(directory_rows(inos, kinds, names, offset))
    } else {
        Err(DatafusionFsError::NotADirectory)
    }
}

/// Makes the answer to `read` for a node of kind `kind`: a window of its
/// content where it is no directory, and a failure where it is one.
pub fn read_answer(kind: FileType, cells: &Vec<Option<Vec<u8>>>, offset: i64, size: u32) -> (data:
    Result<Vec<u8>, DatafusionFsError>)
    ensures
        kind == FileType::Directory ==> data == Err::<Vec<u8>, DatafusionFsError>(
            DatafusionFsError::NotAFile,
        ),
        kind != FileType::Directory ==> match first_present(
            cells@.map_values(|c: Option<Vec<u8>>| bytes_of(c)),
        ) {
            Some(bytes) => data matches Ok(d) && d@ == window(bytes, offset as int, size as int),
            None => data == Err::<Vec<u8>, DatafusionFsError>(DatafusionFsError::NotFound),
        },
{
    if is_directory(kind) {
        Err(DatafusionFsError::NotAFile)
    } else {
        file_content(cells, offset, size)
    }
}

/// The first `m` rows of a fresh listing all lie at or before an offset of
/// `m` or more.
pub proof fn lemma_rows_before_are_passed(
    inos: Seq<Option<u64>>,
    kinds: Seq<Option<FileType>>,
    names: Seq<Option<Seq<char>>>,
    m: int,
    offset: int,
)
    requires
        m <= offset,
        m <= i64::MAX,
    ensures
        after(listing_rows(inos, kinds, names, m, 0), offset) == Seq::<ReadDirView>::empty(),
    decreases m,
{
    reveal(Seq::filter);
    if m > 0 {
        lemma_rows_before_are_passed(inos, kinds, names, m - 1, offset);
        let front = listing_rows(inos, kinds, names, m - 1, 0);
        let all = listing_rows(inos, kinds, names, m, 0);
        if all.len() > front.len() {
            assert(all.drop_last() =~= front);
        }
    }
}

/// Restartability of a listing made of query rows: the rows that a query
/// gives which skipped `offset` rows make the listing that the rows of the
/// whole query make, cut after `offset`.  So a listing can be resumed after
/// any of its rows, and calls resumed after the last row taken deliver each
/// row once.
pub proof fn lemma_resumed_rows_are_the_rest(
    inos: Seq<Option<u64>>,
    kinds: Seq<Option<FileType>>,
    names: Seq<Option<Seq<char>>>,
    n: int,
    offset: int,
)
    requires
        0 <= offset <= n <= i64::MAX,
        n <= inos.len(),
        n <= kinds.len(),
        n <= names.len(),
    ensures
        listing_rows(inos.skip(offset), kinds.skip(offset), names.skip(offset), n - offset, offset)
            == after(listing_rows(inos, kinds, names, n, 0), offset),
    decreases n,
{
    reveal(Seq::filter);
    if n == offset {
        lemma_rows_before_are_passed(inos, kinds, names, n, offset);
    } else {
        lemma_resumed_rows_are_the_rest(inos, kinds, names, n - 1, offset);
        let front = listing_rows(inos, kinds, names, n - 1, 0);
        let all = listing_rows(inos, kinds, names, n, 0);
        assert(inos.skip(offset)[n - offset - 1] == inos[n - 1]);
        assert(kinds.skip(offset)[n - offset - 1] == kinds[n - 1]);
        assert(names.skip(offset)[n - offset - 1] == names[n - 1]);
        if all.len() > front.len() {
            assert(all.drop_last() =~= front);
            assert(all.last().offset == n);
        }
    }
}

/// A child that `lookup` finds is a node that `getattr` accepts: asked with
/// the same row, `getattr` answers with the same metadata.  Only a row that
/// claims the root's identity for something that is no directory is
/// overruled, since the root is always a directory.
pub proof fn lemma_lookup_agrees_with_getattr(batches: Seq<RecordBatch>)
    ensures
        lookup_answer_of(batches) matches Ok(found) ==> {
            &&& getattr_answer_of(found.attr.ino, batches) is Ok
            &&& getattr_answer_of(found.attr.ino, batches)->Ok_0.attr.ino == found.attr.ino
            &&& (found.attr.ino != ROOT_INO || found.attr.kind == FileType::Directory)
                ==> getattr_answer_of(found.attr.ino, batches)->Ok_0.attr == found.attr
        },
        lookup_answer_of(batches) is Err <==> first_attr(batches) is None,
{
}

} // verus!
