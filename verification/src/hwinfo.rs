//! The shared-memory snapshot of HWiNFO: a header, a table of sensors and a table
//! of readings.
//!
//! The snapshot comes from another program. Every offset is checked against the
//! size of the view, and a malformed snapshot is an error. Numbers are little
//! endian, the layout has no padding, and the values of a reading are handed on
//! as the bits of double-precision numbers.

use crate::text;
use crate::text::from_utf8_lossy;
use vstd::prelude::*;
use vstd::string::*;

verus! {

/// The largest view that is trusted.
pub const MAX_VIEW_SIZE: usize = 4194304;

// Offsets in the header.
pub const OFF_SIGNATURE: usize = 0;

pub const OFF_VERSION: usize = 4;

pub const OFF_REVISION: usize = 8;

pub const OFF_POLLTIME: usize = 12;

pub const OFF_SENSOR_SECTION: usize = 20;

pub const OFF_SENSOR_ELEM_SIZE: usize = 24;

pub const OFF_NUM_SENSORS: usize = 28;

pub const OFF_READING_SECTION: usize = 32;

pub const OFF_READING_ELEM_SIZE: usize = 36;

pub const OFF_NUM_READINGS: usize = 40;

pub const HEADER_SIZE: usize = 44;

// Offsets in a sensor.
pub const SE_ID: usize = 0;

pub const SE_NAME_ORIG: usize = 8;

pub const SE_NAME_USER: usize = 136;

pub const SE_NAME_LEN: usize = 128;

// Offsets in a reading.
pub const RE_TYPE: usize = 0;

pub const RE_SENSOR_INDEX: usize = 4;

pub const RE_LABEL_ORIG: usize = 12;

pub const RE_LABEL_USER: usize = 140;

pub const RE_LABEL_LEN: usize = 128;

pub const RE_UNIT: usize = 268;

pub const RE_UNIT_LEN: usize = 16;

pub const RE_VALUE: usize = 284;

pub const RE_VALUE_MIN: usize = 292;

pub const RE_VALUE_MAX: usize = 300;

pub const RE_VALUE_AVG: usize = 308;

/// The smallest sensor and the smallest reading.
pub const MIN_SENSOR_SIZE: usize = 264;

pub const MIN_READING_SIZE: usize = 316;

// ---------------------------------------------------------------------------
// Errors
// ---------------------------------------------------------------------------

/// Why a snapshot is not read.
#[derive(Debug, Clone, Copy, PartialEq, Eq, Structural)]
pub enum HwInfoError {
    /// The view, of this size, holds no header.
    ViewTooSmall(usize),
    UnsupportedVersion(u32),
    SensorElementTooSmall(usize),
    ReadingElementTooSmall(usize),
    SensorSectionOverflow,
    SensorSectionOutOfBounds,
    ReadingSectionOverflow,
    ReadingSectionOutOfBounds,
}

/// The message of an error.
pub open spec fn error_message(e: HwInfoError) -> Seq<char> {
    match e {
        HwInfoError::ViewTooSmall(n) => "hwinfo: view too small for header ("@ + text::decimal(
            n as nat,
        ) + " < 44)"@,
        HwInfoError::UnsupportedVersion(v) => "hwinfo: unsupported header version "@
            + text::decimal(v as nat),
        HwInfoError::SensorElementTooSmall(n) => "hwinfo: sensor element too small ("@
            + text::decimal(n as nat) + " bytes)"@,
        HwInfoError::ReadingElementTooSmall(n) => "hwinfo: reading element too small ("@
            + text::decimal(n as nat) + " bytes)"@,
        HwInfoError::SensorSectionOverflow => "hwinfo: sensor section size overflow"@,
        HwInfoError::SensorSectionOutOfBounds => "hwinfo: sensor section out of bounds"@,
        HwInfoError::ReadingSectionOverflow => "hwinfo: reading section size overflow"@,
        HwInfoError::ReadingSectionOutOfBounds => "hwinfo: reading section out of bounds"@,
    }
}

fn around_number(a: &str, n: u64, b: &str) -> (r: String)
    ensures
        r@ == a@ + text::decimal(n as nat) + b@,
{
    let mut s = a.to_string();
    text::push_decimal(&mut s, n);
    s.append(b);
    s
}

impl HwInfoError {
    /// The message.
    pub fn message(&self) -> (r: String)
        ensures
            r@ == error_message(*self),
    {
        match self {
            HwInfoError::ViewTooSmall(n) => around_number(
                "hwinfo: view too small for header (",
                *n as u64,
                " < 44)",
            ),
            HwInfoError::UnsupportedVersion(v) => {
                let mut s = "hwinfo: unsupported header version ".to_string();
                text::push_decimal(&mut s, *v as u64);
                s
            },
            HwInfoError::SensorElementTooSmall(n) => around_number(
                "hwinfo: sensor element too small (",
                *n as u64,
                " bytes)",
            ),
            HwInfoError::ReadingElementTooSmall(n) => around_number(
                "hwinfo: reading element too small (",
                *n as u64,
                " bytes)",
            ),
            HwInfoError::SensorSectionOverflow => "hwinfo: sensor section size overflow".to_string(),
            HwInfoError::SensorSectionOutOfBounds => "hwinfo: sensor section out of bounds".to_string(),
            HwInfoError::ReadingSectionOverflow => "hwinfo: reading section size overflow".to_string(),
            HwInfoError::ReadingSectionOutOfBounds => "hwinfo: reading section out of bounds".to_string(),
        }
    }
}

// ---------------------------------------------------------------------------
// Numbers and texts
// ---------------------------------------------------------------------------

/// The little-endian number in the four bytes at `at`.
pub open spec fn le32(view: Seq<u8>, at: int) -> nat {
    (view[at] + 0x100 * view[at + 1] + 0x1_0000 * view[at + 2] + 0x100_0000 * view[at + 3]) as nat
}

/// The little-endian number in the eight bytes at `at`.
pub open spec fn le64(view: Seq<u8>, at: int) -> nat {
    le32(view, at) + 0x1_0000_0000 * le32(view, at + 4)
}

/// Reads four bytes, as far as the view holds them.
pub fn read_u32(view: &[u8], offset: usize) -> (r: Option<u32>)
    ensures
        match r {
            Some(n) => offset + 4 <= view@.len() && n as nat == le32(view@, offset as int),
            None => offset + 4 > view@.len(),
        },
{
    if view.len() < 4 || offset > view.len() - 4 {
        return None;
    }
    let n: u64 = view[offset] as u64 + 0x100 * view[offset + 1] as u64 + 0x1_0000 * view[offset
        + 2] as u64 + 0x100_0000 * view[offset + 3] as u64;
    Some(n as u32)
}

/// Reads eight bytes, as far as the view holds them.
pub fn read_u64(view: &[u8], offset: usize) -> (r: Option<u64>)
    ensures
        match r {
            Some(n) => offset + 8 <= view@.len() && n as nat == le64(view@, offset as int),
            None => offset + 8 > view@.len(),
        },
{
    if view.len() < 8 || offset > view.len() - 8 {
        return None;
    }
    match (read_u32(view, offset), read_u32(view, offset + 4)) {
        (Some(low), Some(high)) => Some(low as u64 + 0x1_0000_0000 * high as u64),
        _ => None,
    }
}

/// The `len` bytes at `at`.
pub open spec fn field(view: Seq<u8>, at: int, len: int) -> Seq<u8> {
    view.subrange(at, at + len)
}

/// The bytes in front of the first NUL, or all of them.
pub open spec fn before_nul(bytes: Seq<u8>) -> Seq<u8>
    decreases bytes.len(),
{
    if bytes.len() == 0 || bytes[0] == 0 {
        seq![]
    } else {
        seq![bytes[0]] + before_nul(bytes.skip(1))
    }
}

/// The text of a field that is padded with NULs.
pub open spec fn field_text(bytes: Seq<u8>) -> Seq<char> {
    text::lossy_text(before_nul(bytes))
}

proof fn lemma_before_nul(bytes: Seq<u8>, k: int)
    requires
        0 <= k <= bytes.len(),
        forall|j: int| 0 <= j < k ==> bytes[j] != 0,
        k < bytes.len() ==> bytes[k] == 0,
    ensures
        before_nul(bytes) == bytes.take(k),
    decreases k,
{
    if k > 0 {
        let rest = bytes.skip(1);
        assert forall|j: int| 0 <= j < k - 1 implies rest[j] != 0 by {
            assert(rest[j] == bytes[j + 1]);
        }
        lemma_before_nul(rest, k - 1);
        assert(seq![bytes[0]] + rest.take(k - 1) =~= bytes.take(k));
    } else {
        assert(bytes.take(0) =~= Seq::<u8>::empty());
    }
}

fn sub_bytes(view: &[u8], from: usize, to: usize) -> (r: Vec<u8>)
    requires
        from <= to <= view@.len(),
    ensures
        r@ == view@.subrange(from as int, to as int),
{
    let mut out: Vec<u8> = Vec::new();
    let mut i: usize = from;
    while i < to
        invariant
            from <= i <= to <= view@.len(),
            out@ == view@.subrange(from as int, i as int),
        decreases to - i,
    {
        out.push(view[i]);
        proof {
            assert(view@.subrange(from as int, i + 1) =~= view@.subrange(
                from as int,
                i as int,
            ).push(view@[i as int]));
        }
        i += 1;
    }
    out
}

/// The text of a field that is padded with NULs. Bytes that are no UTF-8 are
/// replaced.
pub fn trim_cstr_ref(bytes: &[u8]) -> (r: String)
    ensures
        r@ == field_text(bytes@),
{
    let mut end: usize = 0;
    while end < bytes.len() && bytes[end] != 0
        invariant
            end <= bytes@.len(),
            forall|j: int| 0 <= j < end ==> bytes@[j] != 0,
        decreases bytes@.len() - end,
    {
        end += 1;
    }
    let front = sub_bytes(bytes, 0, end);
    proof {
        lemma_before_nul(bytes@, end as int);
        assert(front@ =~= bytes@.take(end as int));
    }
    from_utf8_lossy(&front)
}

/// A text that the user may have changed: theirs unless it is empty.
pub open spec fn preferred(user: Seq<u8>, original: Seq<u8>) -> Seq<char> {
    if field_text(user).len() == 0 {
        field_text(original)
    } else {
        field_text(user)
    }
}

fn preferred_text(view: &[u8], user: usize, original: usize, len: usize) -> (r: String)
    requires
        user + len <= view@.len(),
        original + len <= view@.len(),
    ensures
        r@ == preferred(
            field(view@, user as int, len as int),
            field(view@, original as int, len as int),
        ),
{
    let total: usize = view.len();
    assert(user + len <= total && original + len <= total);
    let theirs = trim_cstr_ref(&sub_bytes(view, user, user + len));
    if theirs.as_str().is_empty() {
        trim_cstr_ref(&sub_bytes(view, original, original + len))
    } else {
        theirs
    }
}

// ---------------------------------------------------------------------------
// Header
// ---------------------------------------------------------------------------

/// Where the tables are and how large they are.
#[derive(Debug, Clone, Copy, PartialEq, Eq, Structural)]
pub struct Header {
    pub sensor_section: usize,
    pub sensor_elem_size: usize,
    pub num_sensors: usize,
    pub reading_section: usize,
    pub reading_elem_size: usize,
    pub num_readings: usize,
}

/// The header of a view.
pub open spec fn header(view: Seq<u8>) -> Result<Header, HwInfoError> {
    let version = le32(view, OFF_VERSION as int) as u32;
    let h = Header {
        sensor_section: le32(view, OFF_SENSOR_SECTION as int) as usize,
        sensor_elem_size: le32(view, OFF_SENSOR_ELEM_SIZE as int) as usize,
        num_sensors: le32(view, OFF_NUM_SENSORS as int) as usize,
        reading_section: le32(view, OFF_READING_SECTION as int) as usize,
        reading_elem_size: le32(view, OFF_READING_ELEM_SIZE as int) as usize,
        num_readings: le32(view, OFF_NUM_READINGS as int) as usize,
    };
    if view.len() < HEADER_SIZE {
        Err(HwInfoError::ViewTooSmall(view.len() as usize))
    } else if version != 1 && version != 2 {
        Err(HwInfoError::UnsupportedVersion(version))
    } else if h.sensor_elem_size < MIN_SENSOR_SIZE {
        Err(HwInfoError::SensorElementTooSmall(h.sensor_elem_size))
    } else if h.reading_elem_size < MIN_READING_SIZE {
        Err(HwInfoError::ReadingElementTooSmall(h.reading_elem_size))
    } else {
        Ok(h)
    }
}

fn header_word(view: &[u8], offset: usize) -> (r: usize)
    requires
        offset + 4 <= view@.len(),
    ensures
        r == le32(view@, offset as int) as usize,
{
    match read_u32(view, offset) {
        Some(n) => n as usize,
        None => 0,
    }
}

/// Reads and checks the header.
pub fn parse_header(view: &[u8]) -> (r: Result<Header, HwInfoError>)
    ensures
        r == header(view@),
{
    if view.len() < HEADER_SIZE {
        return Err(HwInfoError::ViewTooSmall(view.len()));
    }
    let version: u32 = match read_u32(view, OFF_VERSION) {
        Some(v) => v,
        None => 0,
    };
    if version != 1 && version != 2 {
        return Err(HwInfoError::UnsupportedVersion(version));
    }
    let sensor_section: usize = header_word(view, OFF_SENSOR_SECTION);
    let sensor_elem_size: usize = header_word(view, OFF_SENSOR_ELEM_SIZE);
    let num_sensors: usize = header_word(view, OFF_NUM_SENSORS);
    let reading_section: usize = header_word(view, OFF_READING_SECTION);
    let reading_elem_size: usize = header_word(view, OFF_READING_ELEM_SIZE);
    let num_readings: usize = header_word(view, OFF_NUM_READINGS);
    if sensor_elem_size < MIN_SENSOR_SIZE {
        return Err(HwInfoError::SensorElementTooSmall(sensor_elem_size));
    }
    if reading_elem_size < MIN_READING_SIZE {
        return Err(HwInfoError::ReadingElementTooSmall(reading_elem_size));
    }
    Ok(
        Header {
            sensor_section,
            sensor_elem_size,
            num_sensors,
            reading_section,
            reading_elem_size,
            num_readings,
        },
    )
}

// ---------------------------------------------------------------------------
// Tables
// ---------------------------------------------------------------------------

/// A reading. The values are the bits of double-precision numbers.
#[derive(Debug, Clone, PartialEq)]
pub struct Reading {
    pub sensor_name: String,
    pub label: String,
    pub unit: String,
    pub value: u64,
    pub min: u64,
    pub max: u64,
    pub avg: u64,
    pub reading_type: u32,
}

/// A reading as plain values.
pub struct ReadingView {
    pub sensor_name: Seq<char>,
    pub label: Seq<char>,
    pub unit: Seq<char>,
    pub value: u64,
    pub min: u64,
    pub max: u64,
    pub avg: u64,
    pub reading_type: u32,
}

impl View for Reading {
    type V = ReadingView;

    open spec fn view(&self) -> ReadingView {
        ReadingView {
            sensor_name: self.sensor_name@,
            label: self.label@,
            unit: self.unit@,
            value: self.value,
            min: self.min,
            max: self.max,
            avg: self.avg,
            reading_type: self.reading_type,
        }
    }
}

/// Where the `i`-th element of a table begins.
pub open spec fn element(section: usize, elem_size: usize, i: int) -> int {
    section + i * elem_size
}

/// The name of the `i`-th sensor.
pub open spec fn sensor_name(view: Seq<u8>, h: Header, i: int) -> Seq<char> {
    let at = element(h.sensor_section, h.sensor_elem_size, i);
    preferred(
        field(view, at + SE_NAME_USER, SE_NAME_LEN as int),
        field(view, at + SE_NAME_ORIG, SE_NAME_LEN as int),
    )
}

/// The `i`-th reading. One that belongs to no sensor of the table has no sensor
/// name.
pub open spec fn reading(view: Seq<u8>, h: Header, i: int) -> ReadingView {
    let at = element(h.reading_section, h.reading_elem_size, i);
    let sensor = le32(view, at + RE_SENSOR_INDEX);
    ReadingView {
        sensor_name: if sensor < h.num_sensors {
            sensor_name(view, h, sensor as int)
        } else {
            seq![]
        },
        label: preferred(
            field(view, at + RE_LABEL_USER, RE_LABEL_LEN as int),
            field(view, at + RE_LABEL_ORIG, RE_LABEL_LEN as int),
        ),
        unit: field_text(field(view, at + RE_UNIT, RE_UNIT_LEN as int)),
        value: le64(view, at + RE_VALUE) as u64,
        min: le64(view, at + RE_VALUE_MIN) as u64,
        max: le64(view, at + RE_VALUE_MAX) as u64,
        avg: le64(view, at + RE_VALUE_AVG) as u64,
        reading_type: le32(view, at + RE_TYPE) as u32,
    }
}

/// What is wrong with the tables that a header announces, if anything.
pub open spec fn table_error(view: Seq<u8>, h: Header) -> Option<HwInfoError> {
    let sensors_end = element(h.sensor_section, h.sensor_elem_size, h.num_sensors as int);
    let readings_end = element(h.reading_section, h.reading_elem_size, h.num_readings as int);
    if sensors_end > usize::MAX {
        Some(HwInfoError::SensorSectionOverflow)
    } else if sensors_end > view.len() {
        Some(HwInfoError::SensorSectionOutOfBounds)
    } else if readings_end > usize::MAX {
        Some(HwInfoError::ReadingSectionOverflow)
    } else if readings_end > view.len() {
        Some(HwInfoError::ReadingSectionOutOfBounds)
    } else {
        None
    }
}

/// All readings of a view, in order, or what is wrong with it.
pub open spec fn readings(view: Seq<u8>) -> Result<Seq<ReadingView>, HwInfoError> {
    match header(view) {
        Err(e) => Err(e),
        Ok(h) => match table_error(view, h) {
            Some(e) => Err(e),
            None => Ok(Seq::new(h.num_readings as nat, |i: int| reading(view, h, i))),
        },
    }
}

/// An element of a table that ends inside the view lies inside the view.
proof fn lemma_element_inside(section: usize, elem_size: usize, num: usize, i: int, len: nat)
    requires
        0 <= i < num,
        element(section, elem_size, num as int) <= len,
    ensures
        0 <= i * elem_size,
        section <= element(section, elem_size, i),
        element(section, elem_size, i) + elem_size <= len,
{
    assert(i * elem_size + elem_size <= num * elem_size) by (nonlinear_arith)
        requires
            0 <= i < num,
            elem_size >= 0,
    ;
    assert(0 <= i * elem_size) by (nonlinear_arith)
        requires
            0 <= i,
            elem_size >= 0,
    ;
}

/// Where a table ends, unless that overflows.
fn table_end(section: usize, elem_size: usize, num: usize) -> (r: Option<usize>)
    ensures
        match r {
            Some(end) => end == element(section, elem_size, num as int),
            None => element(section, elem_size, num as int) > usize::MAX,
        },
{
    proof {
        assert(num * elem_size == elem_size * num) by (nonlinear_arith);
    }
    match elem_size.checked_mul(num) {
        Some(size) => size.checked_add(section),
        None => None,
    }
}

fn check_tables(view: &[u8], h: &Header) -> (r: Option<HwInfoError>)
    ensures
        r == table_error(view@, *h),
{
    match table_end(h.sensor_section, h.sensor_elem_size, h.num_sensors) {
        None => {
            return Some(HwInfoError::SensorSectionOverflow);
        },
        Some(end) => {
            if end > view.len() {
                return Some(HwInfoError::SensorSectionOutOfBounds);
            }
        },
    }
    match table_end(h.reading_section, h.reading_elem_size, h.num_readings) {
        None => {
            return Some(HwInfoError::ReadingSectionOverflow);
        },
        Some(end) => {
            if end > view.len() {
                return Some(HwInfoError::ReadingSectionOutOfBounds);
            }
        },
    }
    None
}

fn read_sensor_names(view: &[u8], h: &Header) -> (r: Vec<String>)
    requires
        header(view@) == Ok::<Header, HwInfoError>(*h),
        table_error(view@, *h) is None,
    ensures
        r@.len() == h.num_sensors,
        forall|k: int| 0 <= k < r@.len() ==> (#[trigger] r@[k])@ == sensor_name(view@, *h, k),
{
    let mut names: Vec<String> = Vec::new();
    let mut i: usize = 0;
    while i < h.num_sensors
        invariant
            i <= h.num_sensors,
            names@.len() == i,
            h.sensor_elem_size >= MIN_SENSOR_SIZE,
            element(h.sensor_section, h.sensor_elem_size, h.num_sensors as int) <= view@.len(),
            forall|k: int|
                0 <= k < i ==> (#[trigger] names@[k])@ == sensor_name(view@, *h, k),
        decreases h.num_sensors - i,
    {
        proof {
            lemma_element_inside(
                h.sensor_section,
                h.sensor_elem_size,
                h.num_sensors,
                i as int,
                view@.len(),
            );
        }
        let total: usize = view.len();
        assert(element(h.sensor_section, h.sensor_elem_size, i as int) <= total);
        let at: usize = h.sensor_section + i * h.sensor_elem_size;
        names.push(preferred_text(view, at + SE_NAME_USER, at + SE_NAME_ORIG, SE_NAME_LEN));
        i += 1;
    }
    names
}

fn number32(view: &[u8], at: usize) -> (r: u32)
    requires
        at + 4 <= view@.len(),
    ensures
        r == le32(view@, at as int) as u32,
        r as nat == le32(view@, at as int),
{
    match read_u32(view, at) {
        Some(n) => n,
        None => 0,
    }
}

fn number64(view: &[u8], at: usize) -> (r: u64)
    requires
        at + 8 <= view@.len(),
    ensures
        r == le64(view@, at as int) as u64,
{
    match read_u64(view, at) {
        Some(n) => n,
        None => 0,
    }
}

fn read_reading(view: &[u8], h: &Header, names: &Vec<String>, i: usize) -> (r: Reading)
    requires
        i < h.num_readings,
        h.reading_elem_size >= MIN_READING_SIZE,
        element(h.reading_section, h.reading_elem_size, h.num_readings as int) <= view@.len(),
        names@.len() == h.num_sensors,
        forall|k: int|
            0 <= k < names@.len() ==> (#[trigger] names@[k])@ == sensor_name(view@, *h, k),
    ensures
        r@ == reading(view@, *h, i as int),
{
    proof {
        lemma_element_inside(
            h.reading_section,
            h.reading_elem_size,
            h.num_readings,
            i as int,
            view@.len(),
        );
    }
    let total: usize = view.len();
    assert(element(h.reading_section, h.reading_elem_size, i as int) <= total);
    let at: usize = h.reading_section + i * h.reading_elem_size;
    let sensor_index: usize = number32(view, at + RE_SENSOR_INDEX) as usize;
    let label = preferred_text(view, at + RE_LABEL_USER, at + RE_LABEL_ORIG, RE_LABEL_LEN);
    let sensor_name = if sensor_index < names.len() {
        names[sensor_index].clone()
    } else {
        String::new()
    };
    let unit = trim_cstr_ref(&sub_bytes(view, at + RE_UNIT, at + RE_UNIT + RE_UNIT_LEN));
    let r = Reading {
        sensor_name,
        label,
        unit,
        value: number64(view, at + RE_VALUE),
        min: number64(view, at + RE_VALUE_MIN),
        max: number64(view, at + RE_VALUE_MAX),
        avg: number64(view, at + RE_VALUE_AVG),
        reading_type: number32(view, at + RE_TYPE),
    };
    proof {
        let want = reading(view@, *h, i as int);
        assert(r@.sensor_name =~= want.sensor_name);
    }
    r
}

/// All readings of a view, in order.
pub fn for_each_reading(view: &[u8]) -> (r: Result<Vec<Reading>, HwInfoError>)
    ensures
        match r {
            Ok(v) => readings(view@) == Ok::<Seq<ReadingView>, HwInfoError>(
                v@.map_values(|x: Reading| x@),
            ),
            Err(e) => readings(view@) == Err::<Seq<ReadingView>, HwInfoError>(e),
        },
{
    let h = match parse_header(view) {
        Ok(h) => h,
        Err(e) => {
            return Err(e);
        },
    };
    match check_tables(view, &h) {
        Some(e) => {
            return Err(e);
        },
        None => {},
    }
    let names = read_sensor_names(view, &h);
    let mut out: Vec<Reading> = Vec::new();
    let mut i: usize = 0;
    while i < h.num_readings
        invariant
            i <= h.num_readings,
            out@.len() == i,
            h.reading_elem_size >= MIN_READING_SIZE,
            element(h.reading_section, h.reading_elem_size, h.num_readings as int) <= view@.len(),
            names@.len() == h.num_sensors,
            forall|k: int|
                0 <= k < names@.len() ==> (#[trigger] names@[k])@ == sensor_name(view@, h, k),
            forall|k: int| 0 <= k < i ==> (#[trigger] out@[k])@ == reading(view@, h, k),
        decreases h.num_readings - i,
    {
        out.push(read_reading(view, &h, &names, i));
        i += 1;
    }
    proof {
        assert(out@.map_values(|x: Reading| x@) =~= Seq::new(
            h.num_readings as nat,
            |k: int| reading(view@, h, k),
        ));
    }
    Ok(out)
}

/// A snapshot is only read where every element of its tables lies inside the view.
pub proof fn law_tables_lie_inside_the_view(view: Seq<u8>, i: int)
    requires
        readings(view) is Ok,
    ensures
        header(view) matches Ok(h) && {
            &&& 0 <= i < h.num_sensors ==> 0 <= element(h.sensor_section, h.sensor_elem_size, i)
                && element(h.sensor_section, h.sensor_elem_size, i) + MIN_SENSOR_SIZE <= view.len()
            &&& 0 <= i < h.num_readings ==> 0 <= element(
                h.reading_section,
                h.reading_elem_size,
                i,
            ) && element(h.reading_section, h.reading_elem_size, i) + MIN_READING_SIZE
                <= view.len()
        },
{
    let h = header(view)->Ok_0;
    if 0 <= i < h.num_sensors {
        lemma_element_inside(h.sensor_section, h.sensor_elem_size, h.num_sensors, i, view.len());
    }
    if 0 <= i < h.num_readings {
        lemma_element_inside(h.reading_section, h.reading_elem_size, h.num_readings, i, view.len());
    }
}

// ---------------------------------------------------------------------------
// The view
// ---------------------------------------------------------------------------

/// The smaller of two sizes.
pub open spec fn smaller(a: int, b: int) -> int {
    if a < b {
        a
    } else {
        b
    }
}

/// A word of the header, or zero where there is none.
pub open spec fn word_or_zero(head: Seq<u8>, at: int) -> nat {
    if at + 4 <= head.len() {
        le32(head, at)
    } else {
        0
    }
}

/// Where the readings end, by the header.
pub open spec fn announced_size(head: Seq<u8>) -> int {
    word_or_zero(head, OFF_READING_SECTION as int) as int + word_or_zero(
        head,
        OFF_READING_ELEM_SIZE as int,
    ) * word_or_zero(head, OFF_NUM_READINGS as int)
}

/// The size of the view that a mapped region is read by: what the header announces,
/// but at least the header, and neither more than the region nor more than is
/// trusted. `head` is the front of the region.
pub fn current_size(head: &[u8], region_size: usize) -> (r: usize)
    ensures
        r <= region_size,
        r <= MAX_VIEW_SIZE,
        r == (if announced_size(head@) < smaller(HEADER_SIZE as int, region_size as int) {
            smaller(HEADER_SIZE as int, region_size as int)
        } else {
            smaller(
                announced_size(head@),
                smaller(MAX_VIEW_SIZE as int, region_size as int),
            )
        }),
{
    let cap: usize = if MAX_VIEW_SIZE < region_size {
        MAX_VIEW_SIZE
    } else {
        region_size
    };
    let least: usize = if HEADER_SIZE < region_size {
        HEADER_SIZE
    } else {
        region_size
    };
    let section: usize = match read_u32(head, OFF_READING_SECTION) {
        Some(n) => n as usize,
        None => 0,
    };
    let elem_size: usize = match read_u32(head, OFF_READING_ELEM_SIZE) {
        Some(n) => n as usize,
        None => 0,
    };
    let num: usize = match read_u32(head, OFF_NUM_READINGS) {
        Some(n) => n as usize,
        None => 0,
    };
    let needed: usize = match elem_size.checked_mul(num) {
        Some(size) => match size.checked_add(section) {
            Some(end) => end,
            None => cap,
        },
        None => cap,
    };
    if needed < least {
        least
    } else if needed > cap {
        cap
    } else {
        needed
    }
}

/// When the snapshot was written. A consumer reads this to see whether there is a
/// new one.
pub fn read_poll_time(view: &[u8]) -> (r: Option<i64>)
    ensures
        r == (if OFF_POLLTIME + 8 <= view@.len() {
            Some((le64(view@, OFF_POLLTIME as int) as u64) as i64)
        } else {
            None
        }),
{
    match read_u64(view, OFF_POLLTIME) {
        Some(bits) => Some(bits as i64),
        None => None,
    }
}

// ---------------------------------------------------------------------------
// The layout
// ---------------------------------------------------------------------------

/// A number is made of its bytes, the least significant one first, and fits into as many
/// bits as they have.
pub proof fn law_numbers_are_little_endian(view: Seq<u8>, at: int)
    ensures
        le32(view, at) == view[at] + 256 * view[at + 1] + 65536 * view[at + 2] + 16777216 * view[at
            + 3],
        le64(view, at) == le32(view, at) + 4294967296 * le32(view, at + 4),
        le32(view, at) <= u32::MAX,
        le64(view, at) <= u64::MAX,
{
    assert(le32(view, at + 4) <= u32::MAX);
}

/// The time of a snapshot lies at byte 12, a view of over four megabytes is not trusted,
/// and the readings end where their table, announced at the bytes 32, 36 and 40, does.
pub proof fn law_view_size_and_time(head: Seq<u8>)
    ensures
        OFF_POLLTIME == 12,
        HEADER_SIZE == 44,
        MAX_VIEW_SIZE == 4 * 1024 * 1024,
        head.len() >= 44 ==> announced_size(head) == le32(head, 32) + le32(head, 36) * le32(
            head,
            40,
        ),
        forall|a: int, b: int| #[trigger] smaller(a, b) <= a && smaller(a, b) <= b && (smaller(a, b)
            == a || smaller(a, b) == b),
{
}

/// A view is read exactly where it holds a header of version 1 or 2, its sensors have at
/// least 264 bytes and its readings 316, and both tables end inside it.
pub proof fn law_which_views_are_read(view: Seq<u8>)
    requires
        view.len() <= usize::MAX,
    ensures
        readings(view) is Ok <==> {
            &&& view.len() >= 44
            &&& le32(view, 4) == 1 || le32(view, 4) == 2
            &&& le32(view, 24) >= 264
            &&& le32(view, 36) >= 316
            &&& le32(view, 20) + le32(view, 28) * le32(view, 24) <= view.len()
            &&& le32(view, 32) + le32(view, 40) * le32(view, 36) <= view.len()
        },
        view.len() < 44 ==> readings(view) == Err::<Seq<ReadingView>, HwInfoError>(
            HwInfoError::ViewTooSmall(view.len() as usize),
        ),
        view.len() >= 44 && le32(view, 4) != 1 && le32(view, 4) != 2 ==> readings(view) == Err::<
            Seq<ReadingView>,
            HwInfoError,
        >(HwInfoError::UnsupportedVersion(le32(view, 4) as u32)),
        readings(view) matches Ok(v) ==> v.len() == le32(view, 40),
{
    law_numbers_are_little_endian(view, 4);
    law_numbers_are_little_endian(view, 20);
    law_numbers_are_little_endian(view, 24);
    law_numbers_are_little_endian(view, 28);
    law_numbers_are_little_endian(view, 32);
    law_numbers_are_little_endian(view, 36);
    law_numbers_are_little_endian(view, 40);
}

proof fn lemma_read_header(view: Seq<u8>)
    requires
        readings(view) is Ok,
    ensures
        header(view) matches Ok(h) && {
            &&& h.sensor_section == le32(view, 20)
            &&& h.sensor_elem_size == le32(view, 24)
            &&& h.num_sensors == le32(view, 28)
            &&& h.reading_section == le32(view, 32)
            &&& h.reading_elem_size == le32(view, 36)
            &&& h.num_readings == le32(view, 40)
            &&& readings(view)->Ok_0.len() == h.num_readings
            &&& forall|i: int|
                0 <= i < h.num_readings ==> (#[trigger] readings(view)->Ok_0[i]) == reading(
                    view,
                    h,
                    i,
                )
            &&& h.sensor_elem_size >= 264
            &&& h.reading_elem_size >= 316
            &&& element(h.sensor_section, h.sensor_elem_size, h.num_sensors as int) <= view.len()
            &&& element(h.reading_section, h.reading_elem_size, h.num_readings as int)
                <= view.len()
        },
{
    law_numbers_are_little_endian(view, 20);
    law_numbers_are_little_endian(view, 24);
    law_numbers_are_little_endian(view, 28);
    law_numbers_are_little_endian(view, 32);
    law_numbers_are_little_endian(view, 36);
    law_numbers_are_little_endian(view, 40);
}

/// The `i`-th reading holds its type, current, lowest, highest and average value from
/// their places in the `i`-th element of the table of readings.
pub proof fn law_reading_numbers(view: Seq<u8>, i: int)
    requires
        readings(view) is Ok,
        0 <= i < le32(view, 40),
    ensures
        ({
            let r = readings(view)->Ok_0[i];
            let at = le32(view, 32) + i * le32(view, 36);
            &&& r.reading_type == le32(view, at)
            &&& r.value == le64(view, at + 284)
            &&& r.min == le64(view, at + 292)
            &&& r.max == le64(view, at + 300)
            &&& r.avg == le64(view, at + 308)
        }),
{
    lemma_read_header(view);
    let at = le32(view, 32) + i * le32(view, 36);
    law_numbers_are_little_endian(view, at);
    law_numbers_are_little_endian(view, at + 284);
    law_numbers_are_little_endian(view, at + 292);
    law_numbers_are_little_endian(view, at + 300);
    law_numbers_are_little_endian(view, at + 308);
}

proof fn lemma_text_at(view: Seq<u8>, at: int, len: int, n: int)
    requires
        0 <= at,
        at + len <= view.len(),
        0 <= n <= len,
        forall|k: int| at <= k < at + n ==> view[k] != 0,
        n == len || view[at + n] == 0,
    ensures
        field_text(field(view, at, len)) == text::lossy_text(view.subrange(at, at + n)),
{
    let f = field(view, at, len);
    assert forall|j: int| 0 <= j < n implies f[j] != 0 by {
        assert(f[j] == view[at + j]);
    }
    if n < len {
        assert(f[n] == view[at + n]);
    }
    lemma_before_nul(f, n);
    assert(f.take(n) =~= view.subrange(at, at + n));
}

proof fn lemma_product_inside(num: nat, size: nat, i: int)
    requires
        0 <= i < num,
    ensures
        0 <= i * size,
        i * size + size <= num * size,
{
    assert(i * size + size <= num * size) by (nonlinear_arith)
        requires
            0 <= i < num,
    ;
    assert(0 <= i * size) by (nonlinear_arith)
        requires
            0 <= i,
    ;
}

/// The unit of a reading is the text in front of the first NUL of its field. `n` is how
/// many bytes that text has.
pub proof fn law_reading_unit(view: Seq<u8>, i: int, n: int)
    requires
        readings(view) is Ok,
        0 <= i < le32(view, 40),
        0 <= n <= 16,
        ({
            let at = le32(view, 32) + i * le32(view, 36) + 268;
            &&& forall|k: int| at <= k < at + n ==> view[k] != 0
            &&& n == 16 || view[at + n] == 0
        }),
    ensures
        ({
            let at = le32(view, 32) + i * le32(view, 36) + 268;
            readings(view)->Ok_0[i].unit == text::lossy_text(view.subrange(at, at + n))
        }),
{
    lemma_read_header(view);
    lemma_product_inside(le32(view, 40), le32(view, 36), i);
    lemma_text_at(view, le32(view, 32) + i * le32(view, 36) + 268, 16, n);
}

/// A label that the user gave is the label of a reading, whatever its original label is;
/// where the user gave none, the original one is. `n` is how many bytes the user's label
/// has in front of its first NUL, `m` how many the original one.
pub proof fn law_user_labels_win(view: Seq<u8>, i: int, n: int, m: int)
    requires
        readings(view) is Ok,
        0 <= i < le32(view, 40),
        0 <= n <= 128,
        0 <= m <= 128,
        ({
            let at = le32(view, 32) + i * le32(view, 36);
            &&& forall|k: int| at + 140 <= k < at + 140 + n ==> view[k] != 0
            &&& n == 128 || view[at + 140 + n] == 0
            &&& forall|k: int| at + 12 <= k < at + 12 + m ==> view[k] != 0
            &&& m == 128 || view[at + 12 + m] == 0
        }),
    ensures
        ({
            let at = le32(view, 32) + i * le32(view, 36);
            let users = text::lossy_text(view.subrange(at + 140, at + 140 + n));
            let originals = text::lossy_text(view.subrange(at + 12, at + 12 + m));
            &&& users.len() > 0 ==> readings(view)->Ok_0[i].label == users
            &&& users.len() == 0 ==> readings(view)->Ok_0[i].label == originals
        }),
{
    lemma_read_header(view);
    lemma_product_inside(le32(view, 40), le32(view, 36), i);
    let at = le32(view, 32) + i * le32(view, 36);
    lemma_text_at(view, at + 140, 128, n);
    lemma_text_at(view, at + 12, 128, m);
}

/// A reading has the name of the sensor that it points to: the one that the user gave it,
/// whatever the original one is, and where the user gave none the original one. A reading
/// that points to no sensor has no name. `n` and `m` are how many bytes the two names
/// have in front of their first NUL.
pub proof fn law_user_sensor_names_win(view: Seq<u8>, i: int, n: int, m: int)
    requires
        readings(view) is Ok,
        0 <= i < le32(view, 40),
        0 <= n <= 128,
        0 <= m <= 128,
        ({
            let sensor = le32(view, le32(view, 32) + i * le32(view, 36) + 4) as int;
            let at = le32(view, 20) + sensor * le32(view, 24);
            sensor < le32(view, 28) ==> {
                &&& forall|k: int| at + 136 <= k < at + 136 + n ==> view[k] != 0
                &&& n == 128 || view[at + 136 + n] == 0
                &&& forall|k: int| at + 8 <= k < at + 8 + m ==> view[k] != 0
                &&& m == 128 || view[at + 8 + m] == 0
            }
        }),
    ensures
        ({
            let sensor = le32(view, le32(view, 32) + i * le32(view, 36) + 4) as int;
            let at = le32(view, 20) + sensor * le32(view, 24);
            let users = text::lossy_text(view.subrange(at + 136, at + 136 + n));
            let originals = text::lossy_text(view.subrange(at + 8, at + 8 + m));
            let name = readings(view)->Ok_0[i].sensor_name;
            &&& sensor >= le32(view, 28) ==> name.len() == 0
            &&& sensor < le32(view, 28) && users.len() > 0 ==> name == users
            &&& sensor < le32(view, 28) && users.len() == 0 ==> name == originals
        }),
{
    lemma_read_header(view);
    let sensor = le32(view, le32(view, 32) + i * le32(view, 36) + 4) as int;
    if sensor < le32(view, 28) {
        lemma_product_inside(le32(view, 28), le32(view, 24), sensor);
        let at = le32(view, 20) + sensor * le32(view, 24);
        lemma_text_at(view, at + 136, 128, n);
        lemma_text_at(view, at + 8, 128, m);
    }
}

/// What each error says.
pub proof fn law_error_messages(n: usize, v: u32)
    ensures
        error_message(HwInfoError::ViewTooSmall(n)) == "hwinfo: view too small for header ("@
            + text::decimal(n as nat) + " < 44)"@,
        error_message(HwInfoError::UnsupportedVersion(v))
            == "hwinfo: unsupported header version "@ + text::decimal(v as nat),
        error_message(HwInfoError::SensorElementTooSmall(n))
            == "hwinfo: sensor element too small ("@ + text::decimal(n as nat) + " bytes)"@,
        error_message(HwInfoError::ReadingElementTooSmall(n))
            == "hwinfo: reading element too small ("@ + text::decimal(n as nat) + " bytes)"@,
        error_message(HwInfoError::SensorSectionOverflow)
            == "hwinfo: sensor section size overflow"@,
        error_message(HwInfoError::SensorSectionOutOfBounds)
            == "hwinfo: sensor section out of bounds"@,
        error_message(HwInfoError::ReadingSectionOverflow)
            == "hwinfo: reading section size overflow"@,
        error_message(HwInfoError::ReadingSectionOutOfBounds)
            == "hwinfo: reading section out of bounds"@,
{
}

} // verus!
