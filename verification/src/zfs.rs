//! Where the zfs backup driver keeps its files and snapshots, the arguments
//! it hands to `zfs`, and how it reads back the records it wrote.

use vstd::prelude::*;
use crate::text::{chars_of, occurs_at, occurs_at_exec, string_of, trim, trimmed};

verus! {

/// `16` to the power `e`.
pub open spec fn pow16(e: nat) -> nat
    decreases e,
{
    if e == 0 {
        1
    } else {
        16 * pow16((e - 1) as nat)
    }
}

/// The lower-case hexadecimal digit for `d` (below 16).
pub open spec fn hex_digit(d: nat) -> char {
    if d < 10 {
        ((48 + d) as u8) as char
    } else {
        ((87 + d) as u8) as char
    }
}

/// The 32 hexadecimal digits of `id`, most significant first.
pub open spec fn uuid_digits(id: u128) -> Seq<char> {
    Seq::new(32, |i: int| hex_digit(((id as nat) / pow16((31 - i) as nat)) % 16))
}

/// The hyphenated lower-case text of the UUID whose 128-bit value is `id`,
/// in groups of 8, 4, 4, 4 and 12 digits.
pub open spec fn uuid_text(id: u128) -> Seq<char> {
    let d = uuid_digits(id);
    d.subrange(0, 8) + "-"@ + d.subrange(8, 12) + "-"@ + d.subrange(12, 16) + "-"@ + d.subrange(
        16,
        20,
    ) + "-"@ + d.subrange(20, 32)
}

/// The text of a UUID.
///
/// Wraps `uuid::Uuid::from_u128` and its `Display`, which writes the value
/// in the hyphenated lower-case form, most significant digit first.
#[verifier::external_body]
pub fn uuid_string(id: u128) -> (r: String)
    ensures
        r@ == uuid_text(id),
{
    uuid::Uuid::from_u128(id).to_string()
}

/// The value of a hexadecimal digit of either case.
pub open spec fn hex_value(c: char) -> Option<nat> {
    if '0' <= c && c <= '9' {
        Some(((c as int) - 48) as nat)
    } else if 'a' <= c && c <= 'f' {
        Some(((c as int) - 87) as nat)
    } else if 'A' <= c && c <= 'F' {
        Some(((c as int) - 55) as nat)
    } else {
        None
    }
}

/// The number that the hexadecimal digits `digits` spell, most significant
/// first; nothing when one of them is not a hexadecimal digit.
pub open spec fn hex_number(digits: Seq<char>) -> Option<nat>
    decreases digits.len(),
{
    if digits.len() == 0 {
        Some(0)
    } else {
        match (hex_number(digits.drop_last()), hex_value(digits.last())) {
            (Some(high), Some(low)) => Some(high * 16 + low),
            _ => None,
        }
    }
}

/// The 32 digits of a hyphenated UUID text (8-4-4-4-12 digits with hyphens
/// between the groups), or nothing when `text` is not shaped so.
pub open spec fn hyphenated_digits(text: Seq<char>) -> Option<Seq<char>> {
    if text.len() == 36 && text[8] == '-' && text[13] == '-' && text[18] == '-' && text[23] == '-' {
        Some(
            text.subrange(0, 8) + text.subrange(9, 13) + text.subrange(14, 18) + text.subrange(19, 23)
                + text.subrange(24, 36),
        )
    } else {
        None
    }
}

/// The value of 32 hexadecimal digits.
pub open spec fn uuid_value(digits: Option<Seq<char>>) -> Option<u128> {
    match digits {
        Some(d) => match hex_number(d) {
            Some(v) => if d.len() == 32 {
                Some(v as u128)
            } else {
                None
            },
            None => None,
        },
        None => None,
    }
}

/// `c` in lower case when it is an ASCII capital.
pub open spec fn ascii_lower(c: char) -> char {
    if 'A' <= c && c <= 'Z' {
        ((c as u32) + 32) as char
    } else {
        c
    }
}

/// What `uuid::Uuid::parse_str` accepts: 32 hexadecimal digits; the
/// hyphenated form; the hyphenated form in braces; or `urn:uuid:` (in any
/// case) followed by the hyphenated form. Digits may be of either case.
pub open spec fn uuid_parsed(text: Seq<char>) -> Option<u128> {
    if text.len() == 32 {
        uuid_value(Some(text))
    } else if text.len() == 36 {
        uuid_value(hyphenated_digits(text))
    } else if text.len() == 38 && text[0] == '{' && text[37] == '}' {
        uuid_value(hyphenated_digits(text.subrange(1, 37)))
    } else if text.len() == 45 && (forall|i: int| 0 <= i < 9 ==> ascii_lower(#[trigger] text[i]) == "urn:uuid:"@[i]) {
        uuid_value(hyphenated_digits(text.skip(9)))
    } else {
        None
    }
}

/// Parses the text of a UUID.
///
/// Wraps `uuid::Uuid::parse_str` and `Uuid::as_u128`; the contract states
/// the forms that the parser documents and accepts, digits of either case.
#[verifier::external_body]
pub fn parse_uuid(text: &str) -> (r: Option<u128>)
    ensures
        r == uuid_parsed(text@),
{
    match uuid::Uuid::parse_str(text) {
        Ok(id) => Some(id.as_u128()),
        Err(_) => None,
    }
}

/// The last `n` hexadecimal digits of `v`, most significant first.
spec fn hex_digits(v: nat, n: nat) -> Seq<char> {
    Seq::new(n, |i: int| hex_digit((v / pow16((n - 1 - i) as nat)) % 16))
}

proof fn lemma_pow16_positive(e: nat)
    ensures
        pow16(e) > 0,
    decreases e,
{
    if e > 0 {
        lemma_pow16_positive((e - 1) as nat);
    }
}

proof fn lemma_hex_digit_value(d: nat)
    requires
        d < 16,
    ensures
        hex_value(hex_digit(d)) == Some(d),
{
}

proof fn lemma_hex_digits_value(v: nat, n: nat)
    ensures
        hex_number(hex_digits(v, n)) == Some(v % pow16(n)),
    decreases n,
{
    if n > 0 {
        let p = pow16((n - 1) as nat);
        lemma_pow16_positive((n - 1) as nat);
        let d = hex_digits(v, n);
        assert forall|i: int| 0 <= i < n - 1 implies #[trigger] d.drop_last()[i] == hex_digits(
            v / 16,
            (n - 1) as nat,
        )[i] by {
            let q = pow16((n - 2 - i) as nat);
            lemma_pow16_positive((n - 2 - i) as nat);
            assert(pow16((n - 1 - i) as nat) == 16 * q);
            vstd::arithmetic::div_mod::lemma_div_denominator(v as int, 16, q as int);
        }
        assert(d.drop_last() =~= hex_digits(v / 16, (n - 1) as nat));
        assert(pow16(0) == 1);
        assert(d.last() == hex_digit((v / 1) % 16));
        assert(v / 1 == v);
        lemma_hex_digit_value(v % 16);
        lemma_hex_digits_value(v / 16, (n - 1) as nat);
        vstd::arithmetic::div_mod::lemma_mod_breakdown(v as int, 16, p as int);
        assert(pow16(n) == 16 * p);
    }
}

/// The text that a UUID is written as parses back to the same UUID.
pub proof fn lemma_uuid_text_parses(id: u128)
    ensures
        uuid_parsed(uuid_text(id)) == Some(id),
{
    reveal_strlit("-");
    let t = uuid_text(id);
    let d = uuid_digits(id);
    assert(t.len() == 36);
    assert(t[8] == '-' && t[13] == '-' && t[18] == '-' && t[23] == '-');
    assert(hyphenated_digits(t) == Some(d)) by {
        assert(t.subrange(0, 8) + t.subrange(9, 13) + t.subrange(14, 18) + t.subrange(19, 23)
            + t.subrange(24, 36) =~= d);
    }
    assert(d =~= hex_digits(id as nat, 32));
    lemma_hex_digits_value(id as nat, 32);
    assert(pow16(32) == 0x1_0000_0000_0000_0000_0000_0000_0000_0000nat) by {
        reveal_with_fuel(pow16, 33);
    }
    vstd::arithmetic::div_mod::lemma_small_mod(id as nat, pow16(32));
}

/// `part` joined onto the path `base`, as `Path::join` does it on Unix: an
/// absolute `part` replaces `base`; otherwise a `/` separates the two unless
/// `base` is empty or already ends with one.
pub open spec fn path_joined(base: Seq<char>, part: Seq<char>) -> Seq<char> {
    if part.len() > 0 && part[0] == '/' {
        part
    } else if base.len() == 0 || base.last() == '/' {
        base + part
    } else {
        base + "/"@ + part
    }
}

/// Joins `part` onto the path `base`.
pub fn join_path(base: &str, part: &str) -> (r: String)
    ensures
        r@ == path_joined(base@, part@),
{
    let b = chars_of(base);
    let p = chars_of(part);
    if p.len() > 0 && p[0] == '/' {
        return string_of(&p);
    }
    let mut out = string_of(&b);
    if !(b.len() == 0 || b[b.len() - 1] == '/') {
        out.append("/");
    }
    out.append(part);
    out
}

/// The directory where the driver keeps what it records of backup `uuid`.
pub open spec fn backup_path_text(backup_directory: Seq<char>, uuid: u128) -> Seq<char> {
    path_joined(path_joined(backup_directory, "zfs"@), uuid_text(uuid))
}

/// The name of the snapshot of backup `uuid`.
pub open spec fn snapshot_name_text(uuid: u128) -> Seq<char> {
    "backup-"@ + uuid_text(uuid)
}

/// Where the snapshot of backup `uuid` of server `server_uuid` can be read.
pub open spec fn snapshot_path_text(data_directory: Seq<char>, server_uuid: u128, uuid: u128) -> Seq<
    char,
> {
    path_joined(
        path_joined(
            path_joined(path_joined(data_directory, uuid_text(server_uuid)), ".zfs"@),
            "snapshot"@,
        ),
        snapshot_name_text(uuid),
    )
}

/// The paths and names of one zfs backup.
pub struct ZfsBackup {
    pub server_uuid: u128,
    pub uuid: u128,
}

impl ZfsBackup {
    /// The directory that records backup `uuid`.
    pub fn get_backup_path(backup_directory: &str, uuid: u128) -> (r: String)
        ensures
            r@ == backup_path_text(backup_directory@, uuid),
    {
        let zfs = join_path(backup_directory, "zfs");
        let id = uuid_string(uuid);
        join_path(zfs.as_str(), id.as_str())
    }

    /// The name of the snapshot of backup `uuid`.
    pub fn get_snapshot_name(uuid: u128) -> (r: String)
        ensures
            r@ == snapshot_name_text(uuid),
    {
        let mut out = String::new();
        out.append("backup-");
        let id = uuid_string(uuid);
        out.append(id.as_str());
        out
    }

    /// Where the snapshot of backup `uuid` of server `server_uuid` is found.
    pub fn get_snapshot_path(data_directory: &str, server_uuid: u128, uuid: u128) -> (r: String)
        ensures
            r@ == snapshot_path_text(data_directory@, server_uuid, uuid),
    {
        let server = uuid_string(server_uuid);
        let p = join_path(data_directory, server.as_str());
        let p = join_path(p.as_str(), ".zfs");
        let p = join_path(p.as_str(), "snapshot");
        let name = Self::get_snapshot_name(uuid);
        join_path(p.as_str(), name.as_str())
    }

    /// The file that names the dataset of backup `uuid`.
    pub fn get_dataset_path(backup_directory: &str, uuid: u128) -> (r: String)
        ensures
            r@ == path_joined(backup_path_text(backup_directory@, uuid), "dataset"@),
    {
        let base = Self::get_backup_path(backup_directory, uuid);
        join_path(base.as_str(), "dataset")
    }

    /// The file that holds the ignore patterns of backup `uuid`.
    pub fn get_ignore_path(backup_directory: &str, uuid: u128) -> (r: String)
        ensures
            r@ == path_joined(backup_path_text(backup_directory@, uuid), "ignored"@),
    {
        let base = Self::get_backup_path(backup_directory, uuid);
        join_path(base.as_str(), "ignored")
    }

    /// The id of the backup.
    pub fn uuid(&self) -> (r: u128)
        ensures
            r == self.uuid,
    {
        self.uuid
    }
}


/// The first position where `p` occurs in `s`, if it occurs.
pub open spec fn first_occurrence(s: Seq<char>, p: Seq<char>) -> Option<int> {
    if exists|i: int| occurs_at(s, i, p) {
        Some(choose|i: int| occurs_at(s, i, p) && forall|j: int| 0 <= j < i ==> !occurs_at(s, j, p))
    } else {
        None
    }
}

/// Why the dataset record of a backup does not name its server.
#[derive(Clone, Copy, Debug, PartialEq, Eq, Structural)]
pub enum DatasetError {
    /// The record holds no `server-`.
    MissingServerMarker,
    /// What follows the first `server-` is not a UUID.
    InvalidUuid,
}

/// The server that a dataset record names: the UUID after its first
/// `server-`.
pub open spec fn dataset_server_spec(dataset: Seq<char>) -> Result<u128, DatasetError> {
    match first_occurrence(dataset, "server-"@) {
        None => Err(DatasetError::MissingServerMarker),
        Some(i) => match uuid_parsed(dataset.skip(i + 7)) {
            Some(id) => Ok(id),
            None => Err(DatasetError::InvalidUuid),
        },
    }
}

/// Reads the server's UUID out of the dataset record of a backup.
pub fn parse_dataset_server(dataset: &str) -> (r: Result<u128, DatasetError>)
    ensures
        r == dataset_server_spec(dataset@),
{
    let v = chars_of(dataset);
    let marker = chars_of("server-");
    proof {
        reveal_strlit("server-");
    }
    assert(marker@.len() == 7);
    let mut i: usize = 0;
    while i < v.len()
        invariant
            i <= v@.len(),
            marker@ == "server-"@,
            marker@.len() == 7,
            v@ == dataset@,
            forall|j: int| 0 <= j < i ==> !occurs_at(v@, j, marker@),
        decreases v@.len() - i,
    {
        if occurs_at_exec(&v, i, &marker) {
            let ghost first = first_occurrence(v@, marker@);
            assert(first == Some(i as int)) by {
                let c = choose|c: int| occurs_at(v@, c, marker@) && forall|j: int|
                    0 <= j < c ==> !occurs_at(v@, j, marker@);
                if c < i {
                } else if c > i {
                    assert(!occurs_at(v@, i as int, marker@));
                }
            }
            let mut rest: Vec<char> = Vec::new();
            let vlen = v.len();
            assert(i + 7 <= vlen);
            let mut k: usize = i + 7;
            while k < v.len()
                invariant
                    i + 7 <= k <= v@.len(),
                    rest@ == v@.subrange(i + 7, k as int),
                decreases v@.len() - k,
            {
                rest.push(v[k]);
                assert(v@.subrange(i + 7, k + 1) =~= v@.subrange(i + 7, k as int).push(v@[k as int]));
                k += 1;
            }
            assert(rest@ =~= v@.skip(i + 7));
            let text = string_of(&rest);
            assert(v@ == dataset@);
            assert(first_occurrence(dataset@, "server-"@) == Some(i as int));
            assert(text@ == dataset@.skip(i + 7));
            return match parse_uuid(text.as_str()) {
                Some(id) => Ok(id),
                None => Err(DatasetError::InvalidUuid),
            };
        }
        i += 1;
    }
    assert forall|j: int| !occurs_at(v@, j, marker@) by {
        if 0 <= j && j + marker@.len() <= v@.len() {
            assert(j < i);
        }
    }
    Err(DatasetError::MissingServerMarker)
}

/// A dataset record that names a server by `server-` and the text of its
/// UUID, with no `server-` starting earlier, is read back as that server.
pub proof fn lemma_dataset_record_names_server(prefix: Seq<char>, id: u128)
    requires
        forall|j: int| 0 <= j < prefix.len() ==> !occurs_at(
            prefix + "server-"@ + uuid_text(id),
            j,
            "server-"@,
        ),
    ensures
        dataset_server_spec(prefix + "server-"@ + uuid_text(id)) == Ok::<u128, DatasetError>(id),
{
    reveal_strlit("server-");
    let p = "server-"@;
    let d = prefix + p + uuid_text(id);
    let n = prefix.len() as int;
    assert(d.subrange(n, n + 7) =~= p);
    assert(occurs_at(d, n, p));
    let c = choose|c: int| occurs_at(d, c, p) && forall|j: int| 0 <= j < c ==> !occurs_at(d, j, p);
    assert(occurs_at(d, c, p) && forall|j: int| 0 <= j < c ==> !occurs_at(d, j, p));
    if c < n {
        assert(!occurs_at(d, c, p));
    } else if c > n {
        assert(!occurs_at(d, n, p));
    }
    assert(first_occurrence(d, p) == Some(n));
    assert(d.skip(n + 7) =~= uuid_text(id));
    lemma_uuid_text_parses(id);
}

/// The argument that names a snapshot to `zfs`: `dataset@snapshot`.
pub open spec fn snapshot_argument_text(dataset: Seq<char>, snapshot: Seq<char>) -> Seq<char> {
    dataset + "@"@ + snapshot
}

/// Builds the argument that names snapshot `snapshot` of `dataset`.
pub fn snapshot_argument(dataset: &str, snapshot: &str) -> (r: String)
    ensures
        r@ == snapshot_argument_text(dataset@, snapshot@),
{
    let mut out = String::new();
    out.append(dataset);
    out.append("@");
    out.append(snapshot);
    out
}

/// The argument that destroys the snapshot of backup `uuid`, from the
/// recorded dataset name (white space around it is dropped).
pub fn destroy_argument(dataset_record: &str, uuid: u128) -> (r: String)
    ensures
        r@ == snapshot_argument_text(trimmed(dataset_record@), snapshot_name_text(uuid)),
{
    let dataset = trim(dataset_record);
    let name = ZfsBackup::get_snapshot_name(uuid);
    snapshot_argument(dataset.as_str(), name.as_str())
}

/// The `Content-Disposition` of a downloaded backup archive.
pub open spec fn content_disposition_text(uuid: u128, extension: Seq<char>) -> Seq<char> {
    "attachment; filename="@ + uuid_text(uuid) + "."@ + extension
}

/// Builds the `Content-Disposition` of the archive of backup `uuid`.
pub fn content_disposition(uuid: u128, extension: &str) -> (r: String)
    ensures
        r@ == content_disposition_text(uuid, extension@),
{
    let mut out = String::new();
    out.append("attachment; filename=");
    let id = uuid_string(uuid);
    out.append(id.as_str());
    out.append(".");
    out.append(extension);
    out
}

/// The size and file count of what a backup holds, summed over the entries
/// of the server's files.
#[derive(Clone, Copy, Debug)]
pub struct BackupTally {
    pub total_size: u64,
    pub total_files: u64,
}

impl BackupTally {
    /// Nothing counted yet.
    pub fn new() -> (r: BackupTally)
        ensures
            r.total_size == 0,
            r.total_files == 0,
    {
        BackupTally { total_size: 0, total_files: 0 }
    }

    /// Counts an entry of `len` bytes; directories add to the size but not
    /// to the number of files.
    pub fn add(&mut self, len: u64, is_dir: bool)
        requires
            old(self).total_size + len <= u64::MAX,
            old(self).total_files < u64::MAX,
        ensures
            final(self).total_size == old(self).total_size + len,
            final(self).total_files == old(self).total_files + (if is_dir { 0int } else { 1int }),
    {
        self.total_size = self.total_size + len;
        if !is_dir {
            self.total_files = self.total_files + 1;
        }
    }
}


/// The bytes of the entries `(length, is_directory)`.
pub open spec fn size_sum(entries: Seq<(u64, bool)>) -> int
    decreases entries.len(),
{
    if entries.len() == 0 {
        0
    } else {
        size_sum(entries.drop_last()) + entries.last().0
    }
}

/// How many of the entries are not directories.
pub open spec fn file_count(entries: Seq<(u64, bool)>) -> int
    decreases entries.len(),
{
    if entries.len() == 0 {
        0
    } else {
        file_count(entries.drop_last()) + (if entries.last().1 { 0int } else { 1int })
    }
}

proof fn lemma_tally_prefix(entries: Seq<(u64, bool)>, i: int)
    requires
        0 <= i <= entries.len(),
    ensures
        size_sum(entries.take(i)) <= size_sum(entries),
        0 <= file_count(entries.take(i)) <= i,
    decreases entries.len() - i,
{
    if i < entries.len() {
        lemma_tally_prefix(entries, i + 1);
        assert(entries.take(i + 1).drop_last() =~= entries.take(i));
    } else {
        assert(entries.take(i) =~= entries);
    }
    lemma_file_count_bound(entries.take(i));
}

proof fn lemma_file_count_bound(entries: Seq<(u64, bool)>)
    ensures
        0 <= file_count(entries) <= entries.len(),
    decreases entries.len(),
{
    if entries.len() > 0 {
        lemma_file_count_bound(entries.drop_last());
    }
}

impl BackupTally {
    /// The size and file count of a walk over the server's files, each
    /// entry given by its length and whether it is a directory.
    pub fn tally(entries: &Vec<(u64, bool)>) -> (r: BackupTally)
        requires
            size_sum(entries@) <= u64::MAX,
        ensures
            r.total_size == size_sum(entries@),
            r.total_files == file_count(entries@),
    {
        let mut t = BackupTally::new();
        let mut i: usize = 0;
        while i < entries.len()
            invariant
                i <= entries@.len(),
                size_sum(entries@) <= u64::MAX,
                t.total_size == size_sum(entries@.take(i as int)),
                t.total_files == file_count(entries@.take(i as int)),
            decreases entries@.len() - i,
        {
            let (len, is_dir) = entries[i];
            proof {
                assert(entries@.take(i + 1).drop_last() =~= entries@.take(i as int));
                lemma_tally_prefix(entries@, i + 1);
                lemma_file_count_bound(entries@.take(i as int));
            }
            t.add(len, is_dir);
            i = i + 1;
        }
        assert(entries@.take(entries@.len() as int) =~= entries@);
        t
    }
}

/// The record of a finished backup that the panel is told of: its checksum
/// and the kind of checksum, its size and file count, whether it succeeded,
/// and the parts of a multi-part upload.
pub struct RawServerBackup<P> {
    pub checksum: String,
    pub checksum_type: String,
    pub size: u64,
    pub files: u64,
    pub successful: bool,
    pub parts: Vec<P>,
}

/// The record of a zfs backup: the snapshotted dataset stands as its
/// checksum, of type `zfs-subvolume`; the backup always succeeds once the
/// snapshot exists, and it has no upload parts.
pub fn zfs_backup_record<P>(dataset: String, tally: BackupTally) -> (r: RawServerBackup<P>)
    ensures
        r.checksum@ == dataset@,
        r.checksum_type@ == "zfs-subvolume"@,
        r.size == tally.total_size,
        r.files == tally.total_files,
        r.successful,
        r.parts@.len() == 0,
{
    let mut checksum_type = String::new();
    checksum_type.append("zfs-subvolume");
    RawServerBackup {
        checksum: dataset,
        checksum_type,
        size: tally.total_size,
        files: tally.total_files,
        successful: true,
        parts: Vec::new(),
    }
}

/// Whether `a` comes before `b` when compared character by character, by
/// code point, a proper prefix coming first. This is the order of `String`.
pub open spec fn text_before(a: Seq<char>, b: Seq<char>) -> bool {
    exists|k: int|
        0 <= k <= a.len() && k <= b.len() && a.take(k) == b.take(k) && ((k == a.len() && k
            < b.len()) || (k < a.len() && k < b.len() && a[k] < b[k]))
}

/// Whether `names` is in ascending order.
pub open spec fn names_sorted(names: Seq<String>) -> bool {
    forall|i: int, j: int| 0 <= i < j < names.len() ==> !text_before(names[j]@, names[i]@)
}

proof fn lemma_take_agree(a: Seq<char>, b: Seq<char>, k: int, i: int)
    requires
        0 <= i < k <= a.len(),
        k <= b.len(),
        a.take(k) == b.take(k),
    ensures
        a[i] == b[i],
{
    assert(a.take(k)[i] == a[i]);
    assert(b.take(k)[i] == b[i]);
}

/// No text comes before itself, and of two texts at most one comes first.
pub proof fn lemma_text_before_asymmetric(a: Seq<char>, b: Seq<char>)
    ensures
        !text_before(a, a),
        text_before(a, b) ==> !text_before(b, a),
{
    if text_before(a, b) && text_before(b, a) {
        let k1 = choose|k: int|
            0 <= k <= a.len() && k <= b.len() && a.take(k) == b.take(k) && ((k == a.len() && k
                < b.len()) || (k < a.len() && k < b.len() && a[k] < b[k]));
        let k2 = choose|k: int|
            0 <= k <= b.len() && k <= a.len() && b.take(k) == a.take(k) && ((k == b.len() && k
                < a.len()) || (k < b.len() && k < a.len() && b[k] < a[k]));
        if k1 < k2 {
            lemma_take_agree(a, b, k2, k1);
        } else if k2 < k1 {
            lemma_take_agree(a, b, k1, k2);
        }
    }
}

proof fn lemma_text_order_from(a: Seq<char>, b: Seq<char>, k: int)
    requires
        a != b,
        0 <= k <= a.len(),
        k <= b.len(),
        a.take(k) == b.take(k),
    ensures
        text_before(a, b) || text_before(b, a),
    decreases a.len() - k,
{
    if k == a.len() && k == b.len() {
        assert(a =~= a.take(k));
        assert(b =~= b.take(k));
    } else if k == a.len() {
        assert(text_before(a, b));
    } else if k == b.len() {
        assert(b.take(k) == a.take(k));
        assert(text_before(b, a));
    } else if a[k] != b[k] {
        if a[k] < b[k] {
            assert(text_before(a, b));
        } else {
            assert(b.take(k) == a.take(k));
            assert(text_before(b, a));
        }
    } else {
        assert(a.take(k + 1) =~= a.take(k).push(a[k]));
        assert(b.take(k + 1) =~= b.take(k).push(b[k]));
        lemma_text_order_from(a, b, k + 1);
    }
}

/// Of two different texts, one comes before the other.
pub proof fn lemma_text_before_total(a: Seq<char>, b: Seq<char>)
    requires
        a != b,
    ensures
        text_before(a, b) || text_before(b, a),
{
    assert(a.take(0) =~= b.take(0));
    lemma_text_order_from(a, b, 0);
}

/// The texts of a list of names.
pub open spec fn name_texts(names: Seq<String>) -> Seq<Seq<char>> {
    names.map_values(|n: String| n@)
}

/// Two lists in ascending order that hold the same names spell the same
/// texts in the same order.
pub proof fn lemma_sorted_versions_agree(s: Seq<String>, t: Seq<String>)
    requires
        names_sorted(s),
        names_sorted(t),
        s.to_multiset() == t.to_multiset(),
    ensures
        name_texts(s) == name_texts(t),
    decreases s.len(),
{
    s.to_multiset_ensures();
    t.to_multiset_ensures();
    assert(s.len() == s.to_multiset().len());
    assert(t.len() == t.to_multiset().len());
    if s.len() > 0 {
        let x = s[0];
        let y = t[0];
        assert(s.contains(x));
        assert(s.to_multiset().count(x) > 0);
        assert(t.to_multiset().count(x) > 0);
        assert(t.contains(x));
        let m = choose|m: int| 0 <= m < t.len() && t[m] == x;
        assert(t.contains(y));
        assert(t.to_multiset().count(y) > 0);
        assert(s.to_multiset().count(y) > 0);
        assert(s.contains(y));
        let m2 = choose|m: int| 0 <= m < s.len() && s[m] == y;
        if m > 0 {
            assert(!text_before(t[m]@, t[0]@));
        }
        if m2 > 0 {
            assert(!text_before(s[m2]@, s[0]@));
        }
        if x@ != y@ {
            lemma_text_before_total(x@, y@);
            lemma_text_before_asymmetric(x@, y@);
        }
        assert forall|j: int| 0 <= j <= m implies (#[trigger] t[j])@ == x@ by {
            if t[j]@ != x@ {
                lemma_text_before_total(t[j]@, x@);
                if j > 0 {
                    assert(!text_before(t[j]@, t[0]@));
                }
                if j < m {
                    assert(!text_before(t[m]@, t[j]@));
                }
            }
        }
        let s2 = s.drop_first();
        let t2 = t.remove(m);
        assert(s2 =~= s.remove(0));
        assert(s2.to_multiset() == s.to_multiset().remove(x));
        assert(t2.to_multiset() == t.to_multiset().remove(x));
        assert(names_sorted(s2)) by {
            assert forall|i: int, j: int| 0 <= i < j < s2.len() implies !text_before(
                s2[j]@,
                s2[i]@,
            ) by {
                assert(s2[i] == s[i + 1] && s2[j] == s[j + 1]);
            }
        }
        assert(names_sorted(t2)) by {
            assert forall|i: int, j: int| 0 <= i < j < t2.len() implies !text_before(
                t2[j]@,
                t2[i]@,
            ) by {
                let ii = if i < m { i } else { i + 1 };
                let jj = if j < m { j } else { j + 1 };
                assert(t2[i] == t[ii] && t2[j] == t[jj]);
            }
        }
        lemma_sorted_versions_agree(s2, t2);
        assert forall|i: int| 0 <= i < s.len() implies (#[trigger] name_texts(s)[i]) == name_texts(
            t,
        )[i] by {
            if i > 0 {
                assert(name_texts(s2)[i - 1] == name_texts(t2)[i - 1]);
                assert(s2[i - 1] == s[i]);
                if i - 1 < m {
                    assert(t2[i - 1] == t[i - 1]);
                    assert(t[i - 1]@ == x@);
                    assert(t[i]@ == x@);
                } else {
                    assert(t2[i - 1] == t[i]);
                }
            }
        }
        assert(name_texts(s) =~= name_texts(t));
    }
}

/// Sorts names in ascending order.
///
/// Wraps `slice::sort_unstable` on `String`s, whose order compares the UTF-8
/// bytes, which orders by code point as `text_before` does; the result holds
/// the same names.
#[verifier::external_body]
pub fn sort_names(names: &mut Vec<String>)
    ensures
        final(names)@.to_multiset() == old(names)@.to_multiset(),
        names_sorted(final(names)@),
{
    names.sort_unstable();
}

/// An entry of a directory in a backup: its name, whether it is a
/// directory, and whether the ignore rules hide it.
pub struct DirEntryName {
    pub name: String,
    pub is_dir: bool,
    pub ignored: bool,
}

/// The names of the entries that are not hidden and are directories (when
/// `dirs`) or are not (otherwise), in order.
pub open spec fn visible_names(entries: Seq<DirEntryName>, dirs: bool) -> Seq<String>
    decreases entries.len(),
{
    if entries.len() == 0 {
        Seq::empty()
    } else {
        let e = entries.last();
        let earlier = visible_names(entries.drop_last(), dirs);
        if !e.ignored && e.is_dir == dirs {
            earlier.push(e.name)
        } else {
            earlier
        }
    }
}

/// The part of `all` that page `page` (counted from 1) shows with
/// `per_page` entries a page; all of it without paging.
pub open spec fn page_of(all: Seq<String>, per_page: Option<usize>, page: usize) -> Seq<String> {
    match per_page {
        None => all,
        Some(n) => {
            let start = (page - 1) * n;
            let lo = if start < all.len() { start } else { all.len() as int };
            let hi = if start + n < all.len() { start + n } else { all.len() as int };
            all.subrange(lo, hi)
        },
    }
}

/// `sorted` holds the names of `names` in ascending order.
pub open spec fn sorted_version(sorted: Seq<String>, names: Seq<String>) -> bool {
    sorted.to_multiset() == names.to_multiset() && names_sorted(sorted)
}

/// The page size of a directory listing under the configured
/// `directory_entry_limit`: a limit of zero means no limit.
pub fn entry_limit(directory_entry_limit: usize) -> (r: Option<usize>)
    ensures
        r == (if directory_entry_limit == 0 { None } else { Some(directory_entry_limit) }),
{
    if directory_entry_limit == 0 {
        None
    } else {
        Some(directory_entry_limit)
    }
}

/// One page of a directory listing of a backup: directories first, then
/// the other entries, each group in ascending order of name, hidden entries
/// left out. Returns the number of entries shown over all pages, and the
/// names on the page.
pub fn list_directory_page(entries: Vec<DirEntryName>, per_page: Option<usize>, page: usize) -> (r: (
    usize,
    Vec<String>,
))
    requires
        per_page matches Some(n) ==> page >= 1 && (page - 1) * n <= usize::MAX,
    ensures
        r.0 == visible_names(entries@, true).len() + visible_names(entries@, false).len(),
        exists|dirs: Seq<String>, files: Seq<String>|
            sorted_version(dirs, visible_names(entries@, true)) && sorted_version(
                files,
                visible_names(entries@, false),
            ) && r.1@ == page_of(dirs + files, per_page, page),
{
    let mut dirs: Vec<String> = Vec::new();
    let mut files: Vec<String> = Vec::new();
    let mut i: usize = 0;
    while i < entries.len()
        invariant
            i <= entries@.len(),
            dirs@ == visible_names(entries@.take(i as int), true),
            files@ == visible_names(entries@.take(i as int), false),
            dirs@.len() + files@.len() <= i,
        decreases entries@.len() - i,
    {
        let ghost prefix = entries@.take(i + 1);
        assert(prefix.drop_last() =~= entries@.take(i as int));
        let e = &entries[i];
        if !e.ignored {
            if e.is_dir {
                dirs.push(e.name.clone());
            } else {
                files.push(e.name.clone());
            }
        }
        i += 1;
    }
    assert(entries@.take(entries@.len() as int) =~= entries@);
    let ghost dirs_before = dirs@;
    let ghost files_before = files@;
    sort_names(&mut dirs);
    sort_names(&mut files);
    proof {
        dirs_before.to_multiset_ensures();
        dirs@.to_multiset_ensures();
        files_before.to_multiset_ensures();
        files@.to_multiset_ensures();
    }
    let elen = entries.len();
    assert(dirs@.len() + files@.len() <= elen);
    let total = dirs.len() + files.len();
    let ghost all = dirs@ + files@;
    let mut combined = dirs;
    let mut k: usize = 0;
    let ghost dirs_sorted = combined@;
    while k < files.len()
        invariant
            k <= files@.len(),
            combined@ == dirs_sorted + files@.take(k as int),
        decreases files@.len() - k,
    {
        combined.push(files[k].clone());
        assert(files@.take(k + 1) =~= files@.take(k as int).push(files@[k as int]));
        k += 1;
    }
    assert(files@.take(files@.len() as int) =~= files@);
    match per_page {
        None => (total, combined),
        Some(n) => {
            let start = (page - 1) * n;
            let len = combined.len();
            let lo = if start < len { start } else { len };
            let hi = if n < len - lo { lo + n } else { len };
            let mut out: Vec<String> = Vec::new();
            let mut j: usize = lo;
            while j < hi
                invariant
                    lo <= j <= hi <= combined@.len(),
                    out@ == combined@.subrange(lo as int, j as int),
                decreases hi - j,
            {
                out.push(combined[j].clone());
                assert(combined@.subrange(lo as int, j + 1) =~= combined@.subrange(lo as int, j as int).push(
                    combined@[j as int],
                ));
                j += 1;
            }
            assert(out@ == page_of(combined@, per_page, page));
            (total, out)
        },
    }
}


/// Whether `name` is the name of an entry that is not hidden.
pub open spec fn shown_entry_name(entries: Seq<DirEntryName>, name: String) -> bool {
    exists|j: int| 0 <= j < entries.len() && !entries[j].ignored && #[trigger] entries[j].name == name
}

/// Every name listed in a group is the name of an entry of that group that
/// is not hidden.
pub proof fn lemma_visible_name_source(entries: Seq<DirEntryName>, dirs: bool, k: int)
    requires
        0 <= k < visible_names(entries, dirs).len(),
    ensures
        exists|j: int|
            0 <= j < entries.len() && !entries[j].ignored && entries[j].is_dir == dirs && #[trigger] entries[j].name
                == visible_names(entries, dirs)[k],
    decreases entries.len(),
{
    let rest = entries.drop_last();
    let v = visible_names(entries, dirs);
    let rv = visible_names(rest, dirs);
    let e = entries.last();
    assert(v == if !e.ignored && e.is_dir == dirs { rv.push(e.name) } else { rv });
    if k < rv.len() {
        lemma_visible_name_source(rest, dirs, k);
        let j = choose|j: int|
            0 <= j < rest.len() && !rest[j].ignored && rest[j].is_dir == dirs && #[trigger] rest[j].name == rv[k];
        assert(entries[j] == rest[j]);
        assert(entries[j].name == v[k]);
    } else {
        let j = entries.len() - 1;
        assert(entries[j] == e);
        assert(entries[j].name == v[k]);
    }
}

/// The names listed in one group are those of the entries of that group
/// that are not hidden, in the order of the entries.
pub proof fn lemma_visible_names_filter(entries: Seq<DirEntryName>, dirs: bool)
    ensures
        visible_names(entries, dirs) == entries.filter(|e: DirEntryName| !e.ignored && e.is_dir == dirs).map_values(
            |e: DirEntryName| e.name,
        ),
    decreases entries.len(),
{
    reveal(Seq::filter);
    let pred = |e: DirEntryName| !e.ignored && e.is_dir == dirs;
    let name = |e: DirEntryName| e.name;
    if entries.len() > 0 {
        let rest = entries.drop_last();
        lemma_visible_names_filter(rest, dirs);
        assert(entries.filter(pred) == if pred(entries.last()) {
            rest.filter(pred).push(entries.last())
        } else {
            rest.filter(pred)
        });
        if pred(entries.last()) {
            assert(rest.filter(pred).push(entries.last()).map_values(name) =~= rest.filter(pred).map_values(
                name,
            ).push(entries.last().name));
        }
    }
}

/// The entries a listing counts are exactly those that are not hidden,
/// directories and other entries together.
pub proof fn lemma_listing_counts_shown_entries(entries: Seq<DirEntryName>)
    ensures
        visible_names(entries, true).len() + visible_names(entries, false).len() == entries.filter(
            |e: DirEntryName| !e.ignored,
        ).len(),
    decreases entries.len(),
{
    reveal(Seq::filter);
    if entries.len() > 0 {
        lemma_listing_counts_shown_entries(entries.drop_last());
    }
}

/// A listing never shows a hidden entry: whichever ascending orders of the
/// two groups are used, every name on any page is the name of an entry that
/// is not hidden.
pub proof fn lemma_listing_shows_no_hidden_entry(
    entries: Seq<DirEntryName>,
    dirs: Seq<String>,
    files: Seq<String>,
    per_page: Option<usize>,
    page: usize,
)
    requires
        sorted_version(dirs, visible_names(entries, true)),
        sorted_version(files, visible_names(entries, false)),
        per_page matches Some(n) ==> page >= 1,
    ensures
        forall|k: int| 0 <= k < page_of(dirs + files, per_page, page).len() ==> shown_entry_name(
            entries,
            #[trigger] page_of(dirs + files, per_page, page)[k],
        ),
{
    let all = dirs + files;
    let shown = page_of(all, per_page, page);
    assert forall|i: int| 0 <= i < all.len() implies shown_entry_name(entries, #[trigger] all[i]) by {
        let group = if i < dirs.len() { dirs } else { files };
        let source = visible_names(entries, i < dirs.len());
        let x = all[i];
        let at = if i < dirs.len() { i } else { i - dirs.len() };
        assert(group[at] == x);
        group.to_multiset_ensures();
        source.to_multiset_ensures();
        assert(group.contains(x));
        assert(group.to_multiset().count(x) > 0);
        assert(source.to_multiset().count(x) > 0);
        assert(source.contains(x));
        let k = choose|k: int| 0 <= k < source.len() && source[k] == x;
        lemma_visible_name_source(entries, i < dirs.len(), k);
        let j = choose|j: int|
            0 <= j < entries.len() && !entries[j].ignored && entries[j].is_dir == (i < dirs.len())
                && #[trigger] entries[j].name == source[k];
        assert(!entries[j].ignored && entries[j].name == x);
    }
    assert forall|k: int| 0 <= k < shown.len() implies shown_entry_name(entries, #[trigger] shown[k]) by {
        match per_page {
            None => {},
            Some(n) => {
                let start = (page - 1) * n;
                let lo = if start < all.len() { start } else { all.len() as int };
                assert(shown[k] == all[lo + k]);
            },
        }
    }
}

/// A listing is determined by the names it lists: whichever ascending
/// orders of the same directory names and of the same other names are
/// used, the page shows the same texts.
pub proof fn lemma_listing_determined(
    dirs1: Seq<String>,
    files1: Seq<String>,
    dirs2: Seq<String>,
    files2: Seq<String>,
    names_dirs: Seq<String>,
    names_files: Seq<String>,
    per_page: Option<usize>,
    page: usize,
)
    requires
        sorted_version(dirs1, names_dirs),
        sorted_version(dirs2, names_dirs),
        sorted_version(files1, names_files),
        sorted_version(files2, names_files),
        per_page is Some ==> page >= 1,
    ensures
        name_texts(page_of(dirs1 + files1, per_page, page)) == name_texts(
            page_of(dirs2 + files2, per_page, page),
        ),
{
    lemma_sorted_versions_agree(dirs1, dirs2);
    lemma_sorted_versions_agree(files1, files2);
    let a = dirs1 + files1;
    let b = dirs2 + files2;
    assert(name_texts(dirs1).len() == name_texts(dirs2).len());
    assert(name_texts(files1).len() == name_texts(files2).len());
    assert(dirs1.len() == name_texts(dirs1).len() && dirs2.len() == name_texts(dirs2).len());
    assert(files1.len() == name_texts(files1).len() && files2.len() == name_texts(files2).len());
    assert forall|i: int| 0 <= i < a.len() implies (#[trigger] a[i])@ == b[i]@ by {
        if i < dirs1.len() {
            assert(name_texts(dirs1)[i] == name_texts(dirs2)[i]);
        } else {
            assert(name_texts(files1)[i - dirs1.len()] == name_texts(files2)[i - dirs1.len()]);
        }
    }
    assert(a.len() == b.len());
    if let Some(n) = per_page {
        assert((page - 1) * n >= 0) by (nonlinear_arith)
            requires
                page >= 1,
                n >= 0,
        ;
    }
    let pa = page_of(a, per_page, page);
    let pb = page_of(b, per_page, page);
    assert(pa.len() == pb.len());
    assert forall|i: int| 0 <= i < pa.len() implies (#[trigger] pa[i])@ == pb[i]@ by {
        match per_page {
            None => {},
            Some(n) => {
                let start = (page - 1) * n;
                let lo = if start < a.len() { start } else { a.len() as int };
                assert(pa[i] == a[lo + i]);
                assert(pb[i] == b[lo + i]);
            },
        }
    }
    assert(name_texts(pa) =~= name_texts(pb));
}

} // verus!
