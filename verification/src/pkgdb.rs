//! The package record store: the records of the installed packages and the
//! binary file that keeps them.

use vstd::prelude::*;
use vstd::utf8::encode_utf8;

verus! {

/// Why the store could not be read or written.
#[derive(Clone, Copy, PartialEq, Eq, Debug, Structural)]
pub enum StoreError {
    /// There is no database file.
    Missing,
    /// The file is cut short or does not hold a database.
    Corrupt,
    /// The database could not be written.
    WriteFailed,
}

/// The record of one installed package.
#[derive(Debug, Clone, PartialEq, Eq)]
pub struct Package {
    pub name: String,
    pub version: String,
    pub libc: String,
    pub architecture: String,
    pub description: String,
}

/// The installed packages, in the order in which they are kept.
#[derive(Debug, Clone, PartialEq, Eq)]
pub struct PackageDB {
    pub packages: Vec<Package>,
}

/// The five texts of a record as the file keeps them: name, version, libc,
/// architecture and description.
pub type Row = (String, String, String, String, String);

/// What a row holds.
pub type RowView = (Seq<char>, Seq<char>, Seq<char>, Seq<char>, Seq<char>);

/// A package record, as contracts see it.
pub struct PackageView {
    pub name: Seq<char>,
    pub version: Seq<char>,
    pub libc: Seq<char>,
    pub architecture: Seq<char>,
    pub description: Seq<char>,
}

impl View for Package {
    type V = PackageView;

    open spec fn view(&self) -> PackageView {
        PackageView {
            name: self.name@,
            version: self.version@,
            libc: self.libc@,
            architecture: self.architecture@,
            description: self.description@,
        }
    }
}

impl View for PackageDB {
    type V = Seq<PackageView>;

    open spec fn view(&self) -> Seq<PackageView> {
        Seq::new(self.packages@.len(), |i: int| self.packages@[i]@)
    }
}

/// Where the first record named `name` stands; the number of records where none is.
pub open spec fn first_index(records: Seq<PackageView>, name: Seq<char>) -> int
    decreases records.len(),
{
    if records.len() == 0 {
        0
    } else if records[0].name == name {
        0
    } else {
        1 + first_index(records.drop_first(), name)
    }
}

/// The records with `record` entered: in place of the first record of its
/// name, or behind the last where no record has its name.
pub open spec fn entered(records: Seq<PackageView>, record: PackageView) -> Seq<PackageView> {
    let at = first_index(records, record.name);
    if at < records.len() {
        records.update(at, record)
    } else {
        records.push(record)
    }
}

impl PackageDB {
    /// A database without records.
    pub fn new() -> (db: PackageDB)
        ensures
            db@ == Seq::<PackageView>::empty(),
    {
        let db = PackageDB { packages: Vec::new() };
        assert(db@ =~= Seq::<PackageView>::empty());
        db
    }

    /// Where the first record named `name` stands.
    pub fn find(&self, name: &str) -> (found: Option<usize>)
        ensures
            match found {
                Some(i) => i < self@.len() && i == first_index(self@, name@),
                None => first_index(self@, name@) == self@.len(),
            },
    {
        let wanted = name.to_owned();
        let n = self.packages.len();
        let mut i: usize = 0;
        proof {
            assert(self@.skip(0) =~= self@);
        }
        while i < n
            invariant
                n == self.packages@.len(),
                n == self@.len(),
                i <= n,
                wanted@ == name@,
                first_index(self@, name@) == i + first_index(self@.skip(i as int), name@),
            decreases n - i,
        {
            proof {
                assert(self@.skip(i as int).drop_first() =~= self@.skip(i + 1));
                assert(self@.skip(i as int)[0] == self.packages@[i as int]@);
            }
            if self.packages[i].name == wanted {
                return Some(i);
            }
            i += 1;
        }
        None
    }

    /// Enters `package`: it takes the place of the first record of its name,
    /// or the place behind the last record where no record has its name.
    pub fn record(&mut self, package: Package)
        ensures
            final(self)@ == entered(old(self)@, package@),
    {
        let ghost before = self@;
        match self.find(package.name.as_str()) {
            Some(i) => {
                self.packages.set(i, package);
                assert(self@ =~= before.update(i as int, package@));
            },
            None => {
                self.packages.push(package);
                assert(self@ =~= before.push(package@));
            },
        }
    }
}

/// The five fields of a record, in the order in which the file keeps them.
pub open spec fn row_of(record: PackageView) -> RowView {
    (record.name, record.version, record.libc, record.architecture, record.description)
}

/// The record that a row stands for.
pub open spec fn record_of(row: RowView) -> PackageView {
    PackageView {
        name: row.0,
        version: row.1,
        libc: row.2,
        architecture: row.3,
        description: row.4,
    }
}

/// The rows that stand for records.
pub open spec fn rows_of(records: Seq<PackageView>) -> Seq<RowView> {
    Seq::new(records.len(), |i: int| row_of(records[i]))
}

/// The records that rows stand for.
pub open spec fn records_of(rows: Seq<RowView>) -> Seq<PackageView> {
    Seq::new(rows.len(), |i: int| record_of(rows[i]))
}

/// What a list of rows holds.
pub open spec fn row_views(rows: Seq<Row>) -> Seq<RowView> {
    Seq::new(rows.len(), |i: int| (rows[i].0@, rows[i].1@, rows[i].2@, rows[i].3@, rows[i].4@))
}

/// The most bytes that a database file may have, and the most that the
/// records of a database may weigh. The file keeps positions and lengths in
/// 32 bits; under this limit all of them fit.
pub const STORE_LIMIT: usize = 0x4000_0000;

/// The bytes that a text takes in a file.
pub open spec fn text_weight(text: Seq<char>) -> nat {
    encode_utf8(text).len()
}

/// An upper bound of what one row takes in a file.
pub open spec fn row_weight(row: RowView) -> nat {
    64 + text_weight(row.0) + text_weight(row.1) + text_weight(row.2) + text_weight(row.3)
        + text_weight(row.4)
}

/// An upper bound of what rows take in a file.
pub open spec fn weight(rows: Seq<RowView>) -> nat
    decreases rows.len(),
{
    if rows.len() == 0 {
        64
    } else {
        weight(rows.drop_last()) + row_weight(rows.last())
    }
}

/// The bytes that `rkyv::to_bytes` gives for a list of rows; `None` where it fails.
pub uninterp spec fn archived(rows: Seq<RowView>) -> Option<Seq<u8>>;

/// The rows that `rkyv::from_bytes` reads from bytes, which it validates
/// first; `None` where it refuses them.
pub uninterp spec fn restored(bytes: Seq<u8>) -> Option<Seq<RowView>>;

/// What reading a database file gives.
pub open spec fn loaded(contents: Option<Seq<u8>>) -> Result<Seq<PackageView>, StoreError> {
    match contents {
        None => Err(StoreError::Missing),
        Some(bytes) => if bytes.len() > STORE_LIMIT {
            Err(StoreError::Corrupt)
        } else {
            match restored(bytes) {
                None => Err(StoreError::Corrupt),
                Some(rows) => Ok(records_of(rows)),
            }
        },
    }
}

/// What writing a database gives.
pub open spec fn stored(records: Seq<PackageView>) -> Result<Seq<u8>, StoreError> {
    if weight(rows_of(records)) > STORE_LIMIT {
        Err(StoreError::WriteFailed)
    } else {
        match archived(rows_of(records)) {
            None => Err(StoreError::WriteFailed),
            Some(bytes) => if bytes.len() > STORE_LIMIT {
                Err(StoreError::WriteFailed)
            } else {
                Ok(bytes)
            },
        }
    }
}

/// Rows and records stand for each other.
pub proof fn lemma_rows_records(records: Seq<PackageView>)
    ensures
        records_of(rows_of(records)) == records,
{
    assert(records_of(rows_of(records)) =~= records);
}

/// The more rows, the more weight.
proof fn lemma_weight_grows(rows: Seq<RowView>, k: int)
    requires
        0 <= k <= rows.len(),
    ensures
        weight(rows.take(k)) <= weight(rows),
    decreases rows.len() - k,
{
    if k < rows.len() {
        assert(rows.take(k + 1).drop_last() =~= rows.take(k));
        lemma_weight_grows(rows, k + 1);
    } else {
        assert(rows.take(k) =~= rows);
    }
}

/// Calls `rkyv::to_bytes` with `rancor::Error` on the rows. The bytes are a
/// function of what the rows hold, and `rkyv::from_bytes` reads from them
/// rows that hold the same. Rows that weigh more than the limit are left
/// out: `rkyv` keeps positions and lengths in 32 bits and panics or cuts
/// them where they do not fit.
#[verifier::external_body]
fn archive_rows(rows: &Vec<Row>) -> (bytes: Option<Vec<u8>>)
    requires
        weight(row_views(rows@)) <= STORE_LIMIT,
    ensures
        match bytes {
            Some(b) => archived(row_views(rows@)) == Some(b@) && restored(b@) == Some(
                row_views(rows@),
            ),
            None => archived(row_views(rows@)) is None,
        },
{
    match rkyv::to_bytes::<rkyv::rancor::Error>(rows) {
        Ok(bytes) => Some(bytes.into_vec()),
        Err(_) => None,
    }
}

/// Calls `rkyv::from_bytes` with `rancor::Error` on a copy of the bytes that
/// is aligned as `rkyv` writes them. The rows are a function of the bytes.
/// Longer inputs than the limit are left out.
#[verifier::external_body]
fn restore_rows(bytes: &[u8]) -> (rows: Option<Vec<Row>>)
    requires
        bytes@.len() <= STORE_LIMIT,
    ensures
        match rows {
            Some(r) => restored(bytes@) == Some(row_views(r@)),
            None => restored(bytes@) is None,
        },
{
    let mut aligned = rkyv::util::AlignedVec::<16>::with_capacity(bytes.len());
    aligned.extend_from_slice(bytes);
    match rkyv::from_bytes::<Vec<Row>, rkyv::rancor::Error>(&aligned) {
        Ok(rows) => Some(rows),
        Err(_) => None,
    }
}

fn byte_len(text: &String) -> (n: usize)
    ensures
        n == text_weight(text@),
{
    text.as_str().as_bytes().len()
}

/// `total` and `more` together, where that is within the limit.
fn within(total: usize, more: usize) -> (sum: Option<usize>)
    requires
        total <= STORE_LIMIT,
    ensures
        match sum {
            Some(n) => n == total + more && n <= STORE_LIMIT,
            None => total + more > STORE_LIMIT,
        },
{
    if more > STORE_LIMIT - total {
        None
    } else {
        Some(total + more)
    }
}

/// `weight` and the weights of the five texts of `package` together.
fn with_record(weight: usize, package: &Package) -> (sum: Option<usize>)
    requires
        weight <= STORE_LIMIT,
    ensures
        match sum {
            Some(n) => n == weight + row_weight(row_of(package@)) && n <= STORE_LIMIT,
            None => weight + row_weight(row_of(package@)) > STORE_LIMIT,
        },
{
    let a = match within(weight, 64) {
        Some(n) => n,
        None => {
            return None;
        },
    };
    let b = match within(a, byte_len(&package.name)) {
        Some(n) => n,
        None => {
            return None;
        },
    };
    let c = match within(b, byte_len(&package.version)) {
        Some(n) => n,
        None => {
            return None;
        },
    };
    let d = match within(c, byte_len(&package.libc)) {
        Some(n) => n,
        None => {
            return None;
        },
    };
    let e = match within(d, byte_len(&package.architecture)) {
        Some(n) => n,
        None => {
            return None;
        },
    };
    within(e, byte_len(&package.description))
}

/// What the records of `db` weigh, where the store can hold them.
pub fn weigh(db: &PackageDB) -> (w: Option<usize>)
    ensures
        match w {
            Some(n) => n == weight(rows_of(db@)) && n <= STORE_LIMIT,
            None => weight(rows_of(db@)) > STORE_LIMIT,
        },
{
    let n = db.packages.len();
    let mut total: usize = 64;
    let mut i: usize = 0;
    while i < n
        invariant
            n == db.packages@.len(),
            i <= n,
            total <= STORE_LIMIT,
            total == weight(rows_of(db@).take(i as int)),
        decreases n - i,
    {
        proof {
            assert(rows_of(db@).take(i + 1).drop_last() =~= rows_of(db@).take(i as int));
            assert(rows_of(db@).take(i + 1).last() == row_of(db.packages@[i as int]@));
            lemma_weight_grows(rows_of(db@), i + 1);
        }
        match with_record(total, &db.packages[i]) {
            Some(sum) => {
                total = sum;
            },
            None => {
                return None;
            },
        }
        i += 1;
    }
    proof {
        assert(rows_of(db@).take(n as int) =~= rows_of(db@));
    }
    Some(total)
}

/// The rows that stand for the records of `db`.
pub fn rows_from_records(db: &PackageDB) -> (rows: Vec<Row>)
    ensures
        row_views(rows@) == rows_of(db@),
{
    let mut rows: Vec<Row> = Vec::new();
    let n = db.packages.len();
    let mut i: usize = 0;
    while i < n
        invariant
            n == db.packages@.len(),
            i <= n,
            rows@.len() == i,
            forall|k: int|
                0 <= k < i ==> #[trigger] row_views(rows@)[k] == row_of(db.packages@[k]@),
        decreases n - i,
    {
        let p = &db.packages[i];
        let ghost before = rows@;
        rows.push(
            (
                p.name.clone(),
                p.version.clone(),
                p.libc.clone(),
                p.architecture.clone(),
                p.description.clone(),
            ),
        );
        proof {
            assert forall|k: int| 0 <= k < i + 1 implies #[trigger] row_views(rows@)[k] == row_of(
                db.packages@[k]@,
            ) by {
                if k < i {
                    assert(rows@[k] == before[k]);
                    assert(row_views(rows@)[k] == row_views(before)[k]);
                }
            }
        }
        i += 1;
    }
    proof {
        assert(row_views(rows@) =~= rows_of(db@));
    }
    rows
}

/// The database whose records the rows stand for.
pub fn records_from_rows(rows: Vec<Row>) -> (db: PackageDB)
    ensures
        db@ == records_of(row_views(rows@)),
{
    let mut packages: Vec<Package> = Vec::new();
    let n = rows.len();
    let mut i: usize = 0;
    while i < n
        invariant
            n == rows@.len(),
            i <= n,
            packages@.len() == i,
            forall|k: int|
                0 <= k < i ==> (#[trigger] packages@[k])@ == record_of(row_views(rows@)[k]),
        decreases n - i,
    {
        let row = &rows[i];
        packages.push(
            Package {
                name: row.0.clone(),
                version: row.1.clone(),
                libc: row.2.clone(),
                architecture: row.3.clone(),
                description: row.4.clone(),
            },
        );
        i += 1;
    }
    let db = PackageDB { packages };
    proof {
        assert(db@ =~= records_of(row_views(rows@)));
    }
    db
}

/// Reads the database from the contents of its file; `None` stands for a
/// file that does not exist. The bytes are validated before any record is
/// taken from them, and a file beyond the limit of the store is refused.
pub fn read_db(contents: Option<Vec<u8>>) -> (r: Result<PackageDB, StoreError>)
    ensures
        match loaded(
            match contents {
                Some(bytes) => Some(bytes@),
                None => None,
            },
        ) {
            Ok(records) => r is Ok && r->Ok_0@ == records,
            Err(error) => r == Err::<PackageDB, StoreError>(error),
        },
{
    match contents {
        None => Err(StoreError::Missing),
        Some(bytes) => {
            if bytes.len() > STORE_LIMIT {
                return Err(StoreError::Corrupt);
            }
            match restore_rows(bytes.as_slice()) {
                None => Err(StoreError::Corrupt),
                Some(rows) => Ok(records_from_rows(rows)),
            }
        },
    }
}

/// The bytes of the database file for `db`. Read back, they give the records
/// of `db`; and what is read from them is written as the same bytes again.
/// A database beyond the limit of the store is not written.
pub fn write_db(db: &PackageDB) -> (r: Result<Vec<u8>, StoreError>)
    ensures
        match stored(db@) {
            Ok(bytes) => {
                &&& r is Ok
                &&& r->Ok_0@ == bytes
                &&& loaded(Some(bytes)) == Ok::<Seq<PackageView>, StoreError>(db@)
                &&& stored(loaded(Some(bytes))->Ok_0) == Ok::<Seq<u8>, StoreError>(bytes)
            },
            Err(error) => r == Err::<Vec<u8>, StoreError>(error),
        },
        weight(rows_of(db@)) > STORE_LIMIT ==> r == Err::<Vec<u8>, StoreError>(
            StoreError::WriteFailed,
        ),
{
    if weigh(db).is_none() {
        return Err(StoreError::WriteFailed);
    }
    let rows = rows_from_records(db);
    match archive_rows(&rows) {
        None => Err(StoreError::WriteFailed),
        Some(bytes) => {
            if bytes.len() > STORE_LIMIT {
                return Err(StoreError::WriteFailed);
            }
            proof {
                lemma_rows_records(db@);
            }
            Ok(bytes)
        },
    }
}

} // verus!
