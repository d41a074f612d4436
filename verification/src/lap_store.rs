//! Personal-best reference laps on disk: the file names derived from a lap
//! key, and the binary lap file format.

use vstd::prelude::*;
use crate::bytes::{self, read_i32_at, read_u32_at, read_u64_at};
use crate::text::{self, chars_of, push_char, push_str};

verus! {

/// Identity of the car and track a reference lap belongs to.
#[derive(Debug, Clone, PartialEq, Eq)]
pub struct ReferenceLapKey {
    pub track: String,
    pub track_layout: String,
    pub car: String,
    pub legacy_vehicle_class: Option<String>,
}

fn string_of_str(s: &str) -> (r: String)
    ensures
        r@ == s@,
{
    let mut r = String::new();
    push_str(&mut r, s);
    assert(r@ =~= s@);
    r
}

/// Characters kept in file names: ASCII letters and digits, `-` and `_`.
pub open spec fn path_char(c: char) -> bool {
    ('a' <= c <= 'z') || ('A' <= c <= 'Z') || ('0' <= c <= '9') || c == '-' || c == '_'
}

/// Every character that may not appear in a file name replaced by `-`.
pub open spec fn path_mapped(s: Seq<char>) -> Seq<char> {
    s.map_values(|c: char| if path_char(c) { c } else { '-' })
}

/// Index of the first character of `s` that is not `-` (or the length).
pub open spec fn first_non_dash(s: Seq<char>) -> int {
    if exists|i: int| 0 <= i < s.len() && s[i] != '-' {
        choose|i: int| 0 <= i < s.len() && s[i] != '-' && forall|j: int| 0 <= j < i ==> s[j] == '-'
    } else {
        s.len() as int
    }
}

/// One past the last character of `s` that is not `-` (or `first_non_dash`).
pub open spec fn end_non_dash(s: Seq<char>) -> int {
    if exists|i: int| 0 <= i < s.len() && s[i] != '-' {
        choose|i: int| 0 < i <= s.len() && #[trigger] s[i - 1] != '-' && forall|j: int| i <= j < s.len() ==> s[j] == '-'
    } else {
        s.len() as int
    }
}

/// A key part as it appears in a file name: unsupported characters turned
/// into `-`, leading and trailing `-` removed, letters lower-cased.
pub open spec fn sanitized(value: Seq<char>) -> Seq<char> {
    let m = path_mapped(value);
    m.subrange(first_non_dash(m), end_non_dash(m)).map_values(|c: char| text::ascii_lower(c))
}

/// Turns a key part into a safe, lower-case file-name part.
pub fn sanitize_path_part(value: &str) -> (r: String)
    ensures
        r@ == sanitized(value@),
        forall|k: int| 0 <= k < r@.len() ==> path_char(#[trigger] r@[k]) && !('A' <= r@[k] <= 'Z'),
        r@.len() > 0 ==> r@[0] != '-' && r@.last() != '-',
{
    let chars = chars_of(value);
    let mut mapped: Vec<char> = Vec::new();
    let mut i: usize = 0;
    while i < chars.len()
        invariant
            i <= chars.len(),
            chars@ == value@,
            mapped@ == path_mapped(chars@.subrange(0, i as int)),
        decreases chars.len() - i,
    {
        let c = chars[i];
        let keep = ('a' <= c && c <= 'z') || ('A' <= c && c <= 'Z') || ('0' <= c && c <= '9') || c == '-' || c == '_';
        mapped.push(if keep { c } else { '-' });
        i = i + 1;
        assert(mapped@ =~= path_mapped(chars@.subrange(0, i as int)));
    }
    assert(chars@.subrange(0, chars@.len() as int) =~= chars@);
    let ghost m = mapped@;
    let n = mapped.len();
    let mut start: usize = 0;
    while start < n && mapped[start] == '-'
        invariant
            n == mapped@.len(),
            start <= n,
            forall|j: int| 0 <= j < start ==> m[j] == '-',
            m == mapped@,
        decreases n - start,
    {
        start = start + 1;
    }
    let mut end: usize = n;
    while end > start && mapped[end - 1] == '-'
        invariant
            n == mapped@.len(),
            start <= end <= n,
            forall|j: int| end <= j < n ==> m[j] == '-',
            m == mapped@,
        decreases end,
    {
        end = end - 1;
    }
    proof {
        if start < n {
            assert(m[start as int] != '-');
            let a = choose|i: int| 0 <= i < m.len() && m[i] != '-' && forall|j: int| 0 <= j < i ==> m[j] == '-';
            assert(0 <= start < m.len() && m[start as int] != '-' && forall|j: int| 0 <= j < start ==> m[j] == '-');
            if a < start {
                assert(m[a] == '-');
            }
            if a > start {
                assert(m[start as int] == '-');
            }
            assert(end > start);
            assert(m[end - 1] != '-');
            let b = choose|i: int| 0 < i <= m.len() && #[trigger] m[i - 1] != '-' && forall|j: int| i <= j < m.len() ==> m[j] == '-';
            assert(0 < end <= m.len() && m[end - 1] != '-' && forall|j: int| end <= j < m.len() ==> m[j] == '-');
            if b < end {
                assert(m[end - 1] == '-');
            }
            if b > end {
                assert(m[b - 1] == '-');
            }
        } else {
            assert(!exists|i: int| 0 <= i < m.len() && m[i] != '-');
        }
    }
    let mut out = String::new();
    let mut k = start;
    while k < end
        invariant
            start <= k <= end <= n,
            m == mapped@,
            n == mapped@.len(),
            out@ == m.subrange(start as int, k as int).map_values(|c: char| text::ascii_lower(c)),
        decreases end - k,
    {
        push_char(&mut out, text::to_ascii_lower_char(mapped[k]));
        k = k + 1;
        assert(out@ =~= m.subrange(start as int, k as int).map_values(|c: char| text::ascii_lower(c)));
    }
    proof {
        let r = out@;
        assert forall|k: int| 0 <= k < r.len() implies path_char(#[trigger] r[k]) && !('A' <= r[k] <= 'Z') by {
            let c = m[start + k];
            assert(m == path_mapped(value@));
            assert(path_char(c) || c == '-');
            assert(r[k] == text::ascii_lower(c));
            if 'A' <= c <= 'Z' {
                assert('a' <= text::ascii_lower(c) <= 'z');
            }
        }
        if r.len() > 0 {
            assert(r[0] == text::ascii_lower(m[start as int]));
            assert(r.last() == text::ascii_lower(m[end - 1]));
        }
    }
    out
}

/// The file stem of a lap key: its three parts, sanitized, joined by `__`.
pub open spec fn stem_of(a: Seq<char>, b: Seq<char>, c: Seq<char>) -> Seq<char> {
    sanitized(a) + "__"@ + sanitized(b) + "__"@ + sanitized(c)
}

fn join_stem(a: &str, b: &str, c: &str) -> (r: String)
    ensures
        r@ == stem_of(a@, b@, c@),
{
    let mut out = sanitize_path_part(a);
    push_str(&mut out, "__");
    let second = sanitize_path_part(b);
    push_str(&mut out, second.as_str());
    push_str(&mut out, "__");
    let third = sanitize_path_part(c);
    push_str(&mut out, third.as_str());
    out
}

impl ReferenceLapKey {
    /// The key used when the telemetry names no track or car.
    pub fn fallback() -> (key: Self)
        ensures
            key.track@ == "unknown-track"@,
            key.track_layout@ == "unknown-layout"@,
            key.car@ == "unknown-car"@,
            key.legacy_vehicle_class is None,
    {
        ReferenceLapKey {
            track: string_of_str("unknown-track"),
            track_layout: string_of_str("unknown-layout"),
            car: string_of_str("unknown-car"),
            legacy_vehicle_class: None,
        }
    }

    /// File stem: track, layout and car.
    pub fn file_stem(&self) -> (stem: String)
        ensures
            stem@ == stem_of(self.track@, self.track_layout@, self.car@),
    {
        join_stem(self.track.as_str(), self.track_layout.as_str(), self.car.as_str())
    }

    /// File stem of the earlier naming scheme: track, car and vehicle class;
    /// only for keys that carry a vehicle class.
    pub fn legacy_file_stem(&self) -> (stem: Option<String>)
        ensures
            self.legacy_vehicle_class is None ==> stem is None,
            self.legacy_vehicle_class matches Some(class) ==> stem matches Some(s)
                && s@ == stem_of(self.track@, self.car@, class@),
    {
        match &self.legacy_vehicle_class {
            Some(class) => Some(join_stem(self.track.as_str(), self.car.as_str(), class.as_str())),
            None => None,
        }
    }
}

/// Where personal-best laps are kept: a directory.
#[derive(Debug, Clone, PartialEq, Eq)]
pub struct ReferenceLapStore {
    root: String,
}

/// `name` inside the directory `root`: joined with `/` unless `root` is
/// empty or already ends in a separator.
pub open spec fn joined_path(root: Seq<char>, name: Seq<char>) -> Seq<char> {
    if root.len() == 0 {
        name
    } else if root.last() == '/' || root.last() == '\\' {
        root + name
    } else {
        root + "/"@ + name
    }
}

impl ReferenceLapStore {
    pub closed spec fn root_view(&self) -> Seq<char> {
        self.root@
    }

    /// A store rooted at the directory `root`.
    pub fn new(root: String) -> (store: Self)
        ensures
            store.root_view() == root@,
    {
        ReferenceLapStore { root }
    }

    pub fn root(&self) -> (root: &str)
        ensures
            root@ == self.root_view(),
    {
        self.root.as_str()
    }

    /// Path of the personal-best file of `key`.
    pub fn personal_best_path(&self, key: &ReferenceLapKey) -> (path: String)
        ensures
            path@ == joined_path(self.root_view(), stem_of(key.track@, key.track_layout@, key.car@) + ".pb-lap"@),
    {
        let mut name = key.file_stem();
        push_str(&mut name, ".pb-lap");
        join_path(self.root.as_str(), name.as_str())
    }

    /// Path of the personal-best file of `key` under the earlier naming
    /// scheme, for keys that carry a vehicle class.
    pub fn legacy_personal_best_path(&self, key: &ReferenceLapKey) -> (path: Option<String>)
        ensures
            key.legacy_vehicle_class is None ==> path is None,
            key.legacy_vehicle_class matches Some(class) ==> path matches Some(p)
                && p@ == joined_path(self.root_view(), stem_of(key.track@, key.car@, class@) + ".pb-lap"@),
    {
        match key.legacy_file_stem() {
            Some(stem) => {
                let mut name = stem;
                push_str(&mut name, ".pb-lap");
                Some(join_path(self.root.as_str(), name.as_str()))
            },
            None => None,
        }
    }
}

fn join_path(root: &str, name: &str) -> (path: String)
    ensures
        path@ == joined_path(root@, name@),
{
    let chars = chars_of(root);
    if chars.len() == 0 {
        return string_of_str(name);
    }
    let last = chars[chars.len() - 1];
    let mut out = string_of_str(root);
    if last != '/' && last != '\\' {
        push_str(&mut out, "/");
    }
    push_str(&mut out, name);
    out
}

/// Why a reference lap could not be stored or loaded.
#[derive(Debug)]
pub enum StorageError {
    Io(std::io::Error),
    InvalidFormat,
}

#[verifier::external_type_specification]
#[verifier::external_body]
pub struct ExIoError(std::io::Error);

/// Bytes every lap file starts with.
pub open spec fn lap_magic() -> Seq<u8> {
    seq![72u8, 79u8, 76u8, 65u8, 80u8, 48u8, 48u8, 49u8]
}

pub const POINT_SIZE: usize = 52;
pub const MAX_STORED_POINTS: usize = 2_001;
pub const HEADER_SIZE: usize = 20;

/// One stored reference point. Fractional values are kept as the bit
/// patterns of their IEEE 754 doubles.
#[derive(Debug, Clone, Copy, PartialEq, Eq, Structural)]
pub struct StoredPoint {
    pub progress_bits: u64,
    pub time_bits: u64,
    pub throttle_bits: u64,
    pub brake_bits: u64,
    pub speed_bits: u64,
    pub gear: i32,
    pub steering_bits: u64,
}

/// A stored reference lap: total time and its points.
#[derive(Debug, Clone, PartialEq, Eq)]
pub struct StoredLap {
    pub total_time_bits: u64,
    pub points: Vec<StoredPoint>,
}

/// The `n` least significant bytes of `v`, least significant first.
pub open spec fn le_bytes(v: nat, n: nat) -> Seq<u8>
    decreases n,
{
    if n == 0 { Seq::empty() } else { seq![(v % 256) as u8] + le_bytes(v / 256, (n - 1) as nat) }
}

/// Two's-complement bits of a 32-bit signed value.
pub open spec fn i32_bits(v: i32) -> nat {
    if v < 0 { (v + 4294967296) as nat } else { v as nat }
}

pub open spec fn encode_point(p: StoredPoint) -> Seq<u8> {
    le_bytes(p.progress_bits as nat, 8) + le_bytes(p.time_bits as nat, 8) + le_bytes(p.throttle_bits as nat, 8)
        + le_bytes(p.brake_bits as nat, 8) + le_bytes(p.speed_bits as nat, 8) + le_bytes(i32_bits(p.gear), 4)
        + le_bytes(p.steering_bits as nat, 8)
}

pub open spec fn encode_points(ps: Seq<StoredPoint>) -> Seq<u8>
    decreases ps.len(),
{
    if ps.len() == 0 { Seq::empty() } else { encode_points(ps.drop_last()) + encode_point(ps.last()) }
}

/// The file contents of a lap: magic, total time, point count, points.
pub open spec fn encode_lap(total_time_bits: u64, points: Seq<StoredPoint>) -> Seq<u8> {
    lap_magic() + le_bytes(total_time_bits as nat, 8) + le_bytes(points.len(), 4) + encode_points(points)
}

/// The point count a lap file declares.
pub open spec fn declared_count(s: Seq<u8>) -> nat {
    bytes::le_u32(s, 16) as nat
}

/// A lap file is well formed when it has the magic, declares between 1 and
/// 2001 points, and is exactly as long as that many points need.
pub open spec fn lap_bytes_valid(s: Seq<u8>) -> bool {
    &&& s.len() >= HEADER_SIZE
    &&& s.subrange(0, 8) == lap_magic()
    &&& 1 <= declared_count(s) <= MAX_STORED_POINTS
    &&& s.len() == HEADER_SIZE + declared_count(s) * POINT_SIZE
}

pub open spec fn point_at(s: Seq<u8>, i: int) -> StoredPoint {
    let o = HEADER_SIZE + i * POINT_SIZE;
    StoredPoint {
        progress_bits: bytes::le_u64(s, o),
        time_bits: bytes::le_u64(s, o + 8),
        throttle_bits: bytes::le_u64(s, o + 16),
        brake_bits: bytes::le_u64(s, o + 24),
        speed_bits: bytes::le_u64(s, o + 32),
        gear: bytes::le_i32(s, o + 40),
        steering_bits: bytes::le_u64(s, o + 44),
    }
}

/// The points a well-formed lap file holds.
pub open spec fn decoded_points(s: Seq<u8>) -> Seq<StoredPoint> {
    Seq::new(declared_count(s), |i: int| point_at(s, i))
}

/// Appends the `n` least significant bytes of `v`.
fn push_le(out: &mut Vec<u8>, v: u64, n: usize)
    requires
        n <= 8,
    ensures
        final(out)@ == old(out)@ + le_bytes(v as nat, n as nat),
{
    let mut rest = v;
    let mut k: usize = 0;
    while k < n
        invariant
            k <= n <= 8,
            out@ + le_bytes(rest as nat, (n - k) as nat) == old(out)@ + le_bytes(v as nat, n as nat),
        decreases n - k,
    {
        let ghost before = out@;
        out.push((rest % 256) as u8);
        proof {
            assert(le_bytes(rest as nat, (n - k) as nat) == seq![(rest % 256) as u8] + le_bytes((rest / 256) as nat, (n - k - 1) as nat));
            assert(out@ + le_bytes((rest / 256) as nat, (n - k - 1) as nat) =~= before + le_bytes(rest as nat, (n - k) as nat));
        }
        rest = rest / 256;
        k = k + 1;
    }
    assert(out@ =~= old(out)@ + le_bytes(v as nat, n as nat));
}

/// The bytes of a lap file for `lap`.
pub fn encode_reference_lap(lap: &StoredLap) -> (out: Vec<u8>)
    requires
        lap.points@.len() <= u32::MAX,
    ensures
        out@ == encode_lap(lap.total_time_bits, lap.points@),
{
    let mut out: Vec<u8> = Vec::new();
    out.push(72u8);
    out.push(79u8);
    out.push(76u8);
    out.push(65u8);
    out.push(80u8);
    out.push(48u8);
    out.push(48u8);
    out.push(49u8);
    assert(out@ =~= lap_magic());
    push_le(&mut out, lap.total_time_bits, 8);
    push_le(&mut out, lap.points.len() as u64, 4);
    let ghost header = out@;
    let mut i: usize = 0;
    while i < lap.points.len()
        invariant
            i <= lap.points@.len(),
            out@ == header + encode_points(lap.points@.subrange(0, i as int)),
        decreases lap.points.len() - i,
    {
        let p = lap.points[i];
        push_le(&mut out, p.progress_bits, 8);
        push_le(&mut out, p.time_bits, 8);
        push_le(&mut out, p.throttle_bits, 8);
        push_le(&mut out, p.brake_bits, 8);
        push_le(&mut out, p.speed_bits, 8);
        let gear_bits: u64 = if p.gear < 0 { (p.gear as i64 + 4294967296i64) as u64 } else { p.gear as u64 };
        push_le(&mut out, gear_bits, 4);
        push_le(&mut out, p.steering_bits, 8);
        proof {
            let next = lap.points@.subrange(0, i + 1);
            assert(next.drop_last() =~= lap.points@.subrange(0, i as int));
            assert(next.last() == p);
            assert(out@ =~= header + encode_points(next));
        }
        i = i + 1;
    }
    assert(lap.points@.subrange(0, lap.points@.len() as int) =~= lap.points@);
    out
}

/// Reads a lap file: the stored lap when the bytes are well formed,
/// `InvalidFormat` otherwise.
pub fn decode_reference_lap(data: &[u8]) -> (r: Result<StoredLap, StorageError>)
    ensures
        r is Ok <==> lap_bytes_valid(data@),
        r is Err ==> r matches Err(StorageError::InvalidFormat),
        r matches Ok(lap) ==> lap.total_time_bits == bytes::le_u64(data@, 8) && lap.points@ == decoded_points(data@),
{
    let len = data.len();
    if len < HEADER_SIZE {
        return Err(StorageError::InvalidFormat);
    }
    let mut m: usize = 0;
    let magic: [u8; 8] = [72u8, 79u8, 76u8, 65u8, 80u8, 48u8, 48u8, 49u8];
    assert(magic@ =~= lap_magic());
    while m < 8
        invariant
            m <= 8,
            len == data@.len(),
            len >= HEADER_SIZE,
            magic@ == lap_magic(),
            forall|j: int| 0 <= j < m ==> data@[j] == lap_magic()[j],
        decreases 8 - m,
    {
        if data[m] != magic[m] {
            assert(data@.subrange(0, 8)[m as int] != lap_magic()[m as int]);
            return Err(StorageError::InvalidFormat);
        }
        m = m + 1;
    }
    assert(data@.subrange(0, 8) =~= lap_magic());
    let total_time_bits = match read_u64_at(data, 8) {
        Some(v) => v,
        None => return Err(StorageError::InvalidFormat),
    };
    let count = match read_u32_at(data, 16) {
        Some(v) => v as usize,
        None => return Err(StorageError::InvalidFormat),
    };
    if count == 0 || count > MAX_STORED_POINTS {
        return Err(StorageError::InvalidFormat);
    }
    let expected = HEADER_SIZE + count * POINT_SIZE;
    if len != expected {
        return Err(StorageError::InvalidFormat);
    }
    let mut points: Vec<StoredPoint> = Vec::with_capacity(count);
    let mut i: usize = 0;
    let mut offset: usize = HEADER_SIZE;
    while i < count
        invariant
            count == declared_count(data@),
            1 <= count <= MAX_STORED_POINTS,
            len == data@.len(),
            len == HEADER_SIZE + count * POINT_SIZE,
            i <= count,
            offset == HEADER_SIZE + i * POINT_SIZE,
            points@ == decoded_points(data@).subrange(0, i as int),
        decreases count - i,
    {
        assert(offset + POINT_SIZE <= len) by (nonlinear_arith)
            requires offset == HEADER_SIZE + i * POINT_SIZE, i < count, len == HEADER_SIZE + count * POINT_SIZE;
        let progress_bits = read_u64_at(data, offset).unwrap();
        let time_bits = read_u64_at(data, offset + 8).unwrap();
        let throttle_bits = read_u64_at(data, offset + 16).unwrap();
        let brake_bits = read_u64_at(data, offset + 24).unwrap();
        let speed_bits = read_u64_at(data, offset + 32).unwrap();
        let gear = read_i32_at(data, offset + 40).unwrap();
        let steering_bits = read_u64_at(data, offset + 44).unwrap();
        points.push(StoredPoint { progress_bits, time_bits, throttle_bits, brake_bits, speed_bits, gear, steering_bits });
        proof {
            assert(points@ =~= decoded_points(data@).subrange(0, i + 1));
        }
        i = i + 1;
        offset = offset + POINT_SIZE;
    }
    assert(decoded_points(data@).subrange(0, count as int) =~= decoded_points(data@));
    Ok(StoredLap { total_time_bits, points })
}

proof fn lemma_le_bytes_len(v: nat, n: nat)
    ensures
        le_bytes(v, n).len() == n,
    decreases n,
{
    if n > 0 {
        lemma_le_bytes_len(v / 256, (n - 1) as nat);
    }
}

/// Reading back `n` bytes written by `le_bytes` gives the value, when it fits.
proof fn lemma_le_read_back(s: Seq<u8>, off: int, v: nat, n: nat)
    requires
        0 <= off,
        off + n <= s.len(),
        s.subrange(off, off + n) == le_bytes(v, n),
        v < bytes::pow256(n),
    ensures
        bytes::le_value(s, off, n) == v,
    decreases n,
{
    if n > 0 {
        lemma_le_bytes_len(v, n);
        assert(s[off] == s.subrange(off, off + n)[0]);
        assert(le_bytes(v, n)[0] == (v % 256) as u8);
        assert(s.subrange(off + 1, off + n) =~= s.subrange(off, off + n).subrange(1, n as int));
        assert(le_bytes(v, n).subrange(1, n as int) =~= le_bytes(v / 256, (n - 1) as nat));
        assert(v / 256 < bytes::pow256((n - 1) as nat)) by (nonlinear_arith)
            requires v < bytes::pow256(n), bytes::pow256(n) == 256 * bytes::pow256((n - 1) as nat);
        lemma_le_read_back(s, off + 1, v / 256, (n - 1) as nat);
        assert(v == v % 256 + 256 * (v / 256)) by (nonlinear_arith);
    }
}

proof fn lemma_encode_point_len(p: StoredPoint)
    ensures
        encode_point(p).len() == POINT_SIZE,
{
    lemma_le_bytes_len(p.progress_bits as nat, 8);
    lemma_le_bytes_len(p.time_bits as nat, 8);
    lemma_le_bytes_len(p.throttle_bits as nat, 8);
    lemma_le_bytes_len(p.brake_bits as nat, 8);
    lemma_le_bytes_len(p.speed_bits as nat, 8);
    lemma_le_bytes_len(i32_bits(p.gear), 4);
    lemma_le_bytes_len(p.steering_bits as nat, 8);
}

proof fn lemma_encode_points_chunks(ps: Seq<StoredPoint>)
    ensures
        encode_points(ps).len() == ps.len() * POINT_SIZE,
        forall|i: int| 0 <= i < ps.len() ==> encode_points(ps).subrange(i * POINT_SIZE, i * POINT_SIZE + POINT_SIZE)
            == encode_point(#[trigger] ps[i]),
    decreases ps.len(),
{
    if ps.len() > 0 {
        let init = ps.drop_last();
        lemma_encode_points_chunks(init);
        lemma_encode_point_len(ps.last());
        let e = encode_points(ps);
        assert(e == encode_points(init) + encode_point(ps.last()));
        assert(e.len() == ps.len() * POINT_SIZE) by (nonlinear_arith)
            requires e.len() == init.len() * POINT_SIZE + POINT_SIZE, init.len() + 1 == ps.len();
        assert forall|i: int| 0 <= i < ps.len() implies e.subrange(i * POINT_SIZE, i * POINT_SIZE + POINT_SIZE)
            == encode_point(#[trigger] ps[i]) by {
            if i < init.len() {
                assert(i * POINT_SIZE + POINT_SIZE <= init.len() * POINT_SIZE) by (nonlinear_arith)
                    requires i < init.len(), i >= 0;
                assert(e.subrange(i * POINT_SIZE, i * POINT_SIZE + POINT_SIZE)
                    =~= encode_points(init).subrange(i * POINT_SIZE, i * POINT_SIZE + POINT_SIZE));
                assert(init[i] == ps[i]);
            } else {
                assert(i * POINT_SIZE == init.len() * POINT_SIZE);
                assert(e.subrange(i * POINT_SIZE, i * POINT_SIZE + POINT_SIZE) =~= encode_point(ps.last()));
            }
        }
    }
}

proof fn lemma_pow_values()
    ensures
        bytes::pow256(4) == 4294967296,
        bytes::pow256(8) == 18446744073709551616,
        bytes::pow2(32) == 4294967296,
{
    reveal_with_fuel(bytes::pow256, 9);
    reveal_with_fuel(bytes::pow2, 33);
}

/// Reading the point stored at byte `o` of `s` gives that point back.
proof fn lemma_point_read_back(s: Seq<u8>, o: int, p: StoredPoint)
    requires
        0 <= o,
        o + POINT_SIZE <= s.len(),
        s.subrange(o, o + POINT_SIZE) == encode_point(p),
    ensures
        bytes::le_u64(s, o) == p.progress_bits,
        bytes::le_u64(s, o + 8) == p.time_bits,
        bytes::le_u64(s, o + 16) == p.throttle_bits,
        bytes::le_u64(s, o + 24) == p.brake_bits,
        bytes::le_u64(s, o + 32) == p.speed_bits,
        bytes::le_i32(s, o + 40) == p.gear,
        bytes::le_u64(s, o + 44) == p.steering_bits,
{
    lemma_pow_values();
    reveal(bytes::le_u64);
    reveal(bytes::le_i32);
    let e = encode_point(p);
    lemma_le_bytes_len(p.progress_bits as nat, 8);
    lemma_le_bytes_len(p.time_bits as nat, 8);
    lemma_le_bytes_len(p.throttle_bits as nat, 8);
    lemma_le_bytes_len(p.brake_bits as nat, 8);
    lemma_le_bytes_len(p.speed_bits as nat, 8);
    lemma_le_bytes_len(i32_bits(p.gear), 4);
    lemma_le_bytes_len(p.steering_bits as nat, 8);
    assert(s.subrange(o, o + 8) =~= e.subrange(0, 8));
    assert(e.subrange(0, 8) =~= le_bytes(p.progress_bits as nat, 8));
    lemma_le_read_back(s, o, p.progress_bits as nat, 8);
    assert(s.subrange(o + 8, o + 16) =~= e.subrange(8, 16));
    assert(e.subrange(8, 16) =~= le_bytes(p.time_bits as nat, 8));
    lemma_le_read_back(s, o + 8, p.time_bits as nat, 8);
    assert(s.subrange(o + 16, o + 24) =~= e.subrange(16, 24));
    assert(e.subrange(16, 24) =~= le_bytes(p.throttle_bits as nat, 8));
    lemma_le_read_back(s, o + 16, p.throttle_bits as nat, 8);
    assert(s.subrange(o + 24, o + 32) =~= e.subrange(24, 32));
    assert(e.subrange(24, 32) =~= le_bytes(p.brake_bits as nat, 8));
    lemma_le_read_back(s, o + 24, p.brake_bits as nat, 8);
    assert(s.subrange(o + 32, o + 40) =~= e.subrange(32, 40));
    assert(e.subrange(32, 40) =~= le_bytes(p.speed_bits as nat, 8));
    lemma_le_read_back(s, o + 32, p.speed_bits as nat, 8);
    assert(s.subrange(o + 40, o + 44) =~= e.subrange(40, 44));
    assert(e.subrange(40, 44) =~= le_bytes(i32_bits(p.gear), 4));
    lemma_le_read_back(s, o + 40, i32_bits(p.gear), 4);
    assert(s.subrange(o + 44, o + 52) =~= e.subrange(44, 52));
    assert(e.subrange(44, 52) =~= le_bytes(p.steering_bits as nat, 8));
    lemma_le_read_back(s, o + 44, p.steering_bits as nat, 8);
}

/// Decoding the bytes written for a lap of 1 to 2001 points gives the same
/// lap back.
pub proof fn lemma_lap_round_trip(total_time_bits: u64, points: Seq<StoredPoint>)
    requires
        1 <= points.len() <= MAX_STORED_POINTS,
    ensures
        lap_bytes_valid(encode_lap(total_time_bits, points)),
        bytes::le_u64(encode_lap(total_time_bits, points), 8) == total_time_bits,
        decoded_points(encode_lap(total_time_bits, points)) == points,
{
    let s = encode_lap(total_time_bits, points);
    lemma_pow_values();
    lemma_le_bytes_len(total_time_bits as nat, 8);
    lemma_le_bytes_len(points.len(), 4);
    lemma_encode_points_chunks(points);
    assert(s.len() == HEADER_SIZE + points.len() * POINT_SIZE);
    assert(s.subrange(0, 8) =~= lap_magic());
    reveal(bytes::le_u64);
    reveal(bytes::le_u32);
    assert(s.subrange(8, 16) =~= le_bytes(total_time_bits as nat, 8));
    lemma_le_read_back(s, 8, total_time_bits as nat, 8);
    assert(s.subrange(16, 20) =~= le_bytes(points.len(), 4));
    lemma_le_read_back(s, 16, points.len(), 4);
    assert(declared_count(s) == points.len());
    assert forall|i: int| 0 <= i < points.len() implies #[trigger] point_at(s, i) == points[i] by {
        let o = HEADER_SIZE + i * POINT_SIZE;
        assert(i * POINT_SIZE + POINT_SIZE <= points.len() * POINT_SIZE) by (nonlinear_arith)
            requires 0 <= i < points.len();
        assert(0 <= i * POINT_SIZE) by (nonlinear_arith) requires 0 <= i;
        let e = encode_points(points);
        assert(s.subrange(o, o + POINT_SIZE) =~= e.subrange(i * POINT_SIZE, i * POINT_SIZE + POINT_SIZE));
        lemma_point_read_back(s, o, points[i]);
    }
    assert(decoded_points(s) =~= points);
}

} // verus!
