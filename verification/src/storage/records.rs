//! The records that are kept in flash.
use vstd::prelude::*;
#[allow(unused_imports)]
use vstd::string::*;
#[allow(unused_imports)]
use vstd::utf8::*;

use crate::storage::codec::{
    decode, decoded, encode, encoded, fields_fit, fits, law_records_read_back, limit, record_fits,
    record_size, sane, views, Field, FieldView, Kind,
};

verus! {

/// A record that is kept in flash: a row of fields of fixed kinds.
pub trait NvsStorage: Sized {
    /// The kinds of the fields.
    spec fn kinds() -> Seq<Kind>;

    /// What the fields hold.
    spec fn fields(&self) -> Seq<FieldView>;

    /// The lists of the record are not too long.
    spec fn bounded(&self) -> bool;

    /// Whether the lists of the record are not too long.
    fn is_bounded(&self) -> (b: bool)
        ensures
            b == self.bounded(),
    ;

    /// The kinds of the fields.
    fn kind_list() -> (ks: Vec<Kind>)
        ensures
            ks@ == Self::kinds(),
            sane(ks@),
    ;

    /// The fields of the record.
    fn to_fields(&self) -> (fs: Vec<Field>)
        requires
            self.bounded(),
        ensures
            views(fs@) == self.fields(),
            fs@.len() == Self::kinds().len(),
    ;

    /// The record with the given fields, where they are those of a record.
    fn from_fields(fs: &Vec<Field>) -> (r: Self)
        requires
            fs@.len() == Self::kinds().len(),
        ensures
            r.bounded(),
            forall|s: Self|
                s.bounded() && views(fs@) == #[trigger] s.fields() ==> r.fields() == s.fields(),
    ;
}

/// A record can be kept: its lists are not too long, and its texts fit.
pub open spec fn storable<T: NvsStorage>(s: T) -> bool {
    s.bounded() && record_fits(T::kinds(), s.fields())
}

/// The bytes of a record.
pub open spec fn bytes_of<T: NvsStorage>(s: T) -> Seq<u8> {
    encoded(T::kinds(), s.fields())
}

/// Two records hold the same.
pub open spec fn alike<T: NvsStorage>(a: T, b: T) -> bool {
    a.fields() == b.fields()
}

/// Whether a record can be kept.
pub fn can_write<T: NvsStorage>(s: &T) -> (b: bool)
    ensures
        b == storable(*s),
{
    s.is_bounded() && fields_fit(&T::kind_list(), &s.to_fields())
}

/// The bytes of a record, to be written to flash.
pub fn write<T: NvsStorage>(s: &T) -> (b: Vec<u8>)
    requires
        storable(*s),
    ensures
        b@ == bytes_of(*s),
        b@.len() == record_size(T::kinds()),
{
    proof {
        law_records_read_back(T::kinds(), s.fields());
    }
    encode(&T::kind_list(), &s.to_fields())
}

/// The record that bytes from flash hold; nothing where they are not those of a record.
pub fn read<T: NvsStorage>(b: &[u8]) -> (r: Option<T>)
    ensures
        r matches Some(s) ==> storable(s) && b@ == bytes_of(s),
        r is None ==> forall|s: T| storable(s) ==> b@ != #[trigger] bytes_of(s),
{
    let ks = T::kind_list();
    let fs = match decode(&ks, b) {
        Some(fs) => fs,
        None => {
            assert forall|s: T| storable(s) implies b@ != #[trigger] bytes_of(s) by {
                law_records_read_back(T::kinds(), s.fields());
            }
            return None;
        },
    };
    proof {
        assert(views(fs@).len() == decoded(ks@, b@).len());
    }
    let r = T::from_fields(&fs);
    let again = r.to_fields();
    proof {
        assert forall|s: T| storable(s) && b@ == #[trigger] bytes_of(s) implies r.fields()
            == s.fields() by {
            law_records_read_back(T::kinds(), s.fields());
        }
    }
    if !all_fit(&ks, &again) || !same_bytes(encode(&ks, &again).as_slice(), b) {
        return None;
    }
    Some(r)
}

/// A record that is written and read holds what it held.
pub proof fn law_read_gives_back_what_was_written<T: NvsStorage>(s: T, r: T)
    requires
        storable(s),
        storable(r),
        bytes_of(s) == bytes_of(r),
    ensures
        alike(s, r),
{
    law_records_read_back(T::kinds(), s.fields());
    law_records_read_back(T::kinds(), r.fields());
}

/// Whether all fields fit.
fn all_fit(ks: &Vec<Kind>, fs: &Vec<Field>) -> (r: bool)
    requires
        ks@.len() == fs@.len(),
        sane(ks@),
    ensures
        r == record_fits(ks@, views(fs@)),
{
    let mut i: usize = 0;
    while i < ks.len()
        invariant
            i <= ks@.len(),
            sane(ks@),
            ks@.len() == fs@.len(),
            forall|j: int| 0 <= j < i ==> fits(#[trigger] ks@[j], views(fs@)[j]),
        decreases ks@.len() - i,
    {
        if !field_fits(ks[i], &fs[i]) {
            assert(!fits(ks@[i as int], views(fs@)[i as int]));
            return false;
        }
        i += 1;
    }
    true
}

fn field_fits(k: Kind, f: &Field) -> (r: bool)
    requires
        k matches Kind::Num(w) ==> w <= 8,
    ensures
        r == fits(k, f@),
{
    match (k, f) {
        (Kind::Num(w), Field::Num(n)) => {
            let mut v: u64 = *n;
            let mut i: u8 = 0;
            while i < w
                invariant
                    i <= w <= 8,
                    (*n < limit(w as nat)) == (v < limit((w - i) as nat)),
                decreases w - i,
            {
                assert(limit((w - i) as nat) == 256 * limit((w - i - 1) as nat));
                v = v / 256;
                i += 1;
            }
            v == 0
        },
        (Kind::Text(cap), Field::Text(t)) => t.as_str().as_bytes().len() <= cap as usize,
        _ => false,
    }
}

fn same_bytes(a: &[u8], b: &[u8]) -> (r: bool)
    ensures
        r == (a@ == b@),
{
    if a.len() != b.len() {
        return false;
    }
    let mut i: usize = 0;
    while i < a.len()
        invariant
            i <= a@.len(),
            a@.len() == b@.len(),
            forall|j: int| 0 <= j < i ==> a@[j] == b@[j],
        decreases a@.len() - i,
    {
        if a[i] != b[i] {
            return false;
        }
        i += 1;
    }
    assert(a@ =~= b@);
    true
}

/// The number in a field, nought in a text.
pub open spec fn num_in(f: FieldView) -> u64 {
    match f {
        FieldView::Num(n) => n,
        FieldView::Text(_) => 0,
    }
}

/// The text in a field, none in a number.
pub open spec fn text_in(f: FieldView) -> Seq<char> {
    match f {
        FieldView::Num(_) => seq![],
        FieldView::Text(t) => t,
    }
}

pub(crate) fn num_at(fs: &Vec<Field>, i: usize) -> (n: u64)
    requires
        i < fs@.len(),
    ensures
        n == num_in(views(fs@)[i as int]),
{
    match &fs[i] {
        Field::Num(n) => *n,
        Field::Text(_) => 0,
    }
}

pub(crate) fn text_at(fs: &Vec<Field>, i: usize) -> (t: String)
    requires
        i < fs@.len(),
    ensures
        t@ == text_in(views(fs@)[i as int]),
{
    match &fs[i] {
        Field::Num(_) => {
            let t = String::new();
            assert(t@ =~= seq![]);
            t
        },
        Field::Text(t) => t.clone(),
    }
}

pub(crate) fn empty_text() -> (t: String)
    ensures
        t@ == Seq::<char>::empty(),
{
    let t = String::new();
    assert(t@ =~= seq![]);
    t
}

/// A number within 32 bits, nought otherwise.
pub(crate) fn to_u32(n: u64) -> (r: u32)
    ensures
        n <= u32::MAX ==> r == n,
{
    if n <= u32::MAX as u64 {
        n as u32
    } else {
        0
    }
}

pub(crate) fn to_u8(n: u64) -> (r: u8)
    ensures
        n <= u8::MAX ==> r == n,
{
    if n <= u8::MAX as u64 {
        n as u8
    } else {
        0
    }
}

/// A flag as a number.
pub open spec fn flag(b: bool) -> FieldView {
    FieldView::Num(
        if b {
            1
        } else {
            0
        },
    )
}

pub(crate) fn flag_field(b: bool) -> (f: Field)
    ensures
        f@ == flag(b),
{
    Field::Num(
        if b {
            1
        } else {
            0
        },
    )
}

/// Which records are in flash.
#[derive(Debug, PartialEq, Eq, Clone, Copy, Structural)]
pub struct VersionStorage {
    pub version: u32,
    pub init_tag: u32,
}

impl Default for VersionStorage {
    /// Nothing known.
    fn default() -> (r: Self)
        ensures
            r == (VersionStorage { version: 0, init_tag: 0 }),
    {
        VersionStorage { version: 0, init_tag: 0 }
    }
}

impl NvsStorage for VersionStorage {
    open spec fn kinds() -> Seq<Kind> {
        seq![Kind::Num(4), Kind::Num(4)]
    }

    open spec fn fields(&self) -> Seq<FieldView> {
        seq![FieldView::Num(self.version as u64), FieldView::Num(self.init_tag as u64)]
    }

    open spec fn bounded(&self) -> bool {
        true
    }

    fn is_bounded(&self) -> (b: bool) {
        true
    }

    fn kind_list() -> (ks: Vec<Kind>) {
        vec![Kind::Num(4), Kind::Num(4)]
    }

    fn to_fields(&self) -> (fs: Vec<Field>) {
        let fs = vec![Field::Num(self.version as u64), Field::Num(self.init_tag as u64)];
        assert(views(fs@) =~= self.fields());
        fs
    }

    fn from_fields(fs: &Vec<Field>) -> (r: Self) {
        let r = VersionStorage {
            version: to_u32(num_at(fs, 0)),
            init_tag: to_u32(num_at(fs, 1)),
        };
        assert forall|s: Self| views(fs@) == #[trigger] s.fields() implies r.fields()
            == s.fields() by {
            assert(s.fields()[0] == views(fs@)[0]);
            assert(s.fields()[1] == views(fs@)[1]);
            assert(r.fields() =~= s.fields());
        }
        r
    }
}

/// The network that the device joins.
#[derive(Debug)]
pub struct WifiStorage {
    pub wifi_ssid: String,
    pub wifi_password: String,
    pub wifi_finish: bool,
}

impl Default for WifiStorage {
    /// No network.
    fn default() -> (r: Self)
        ensures
            r.wifi_ssid@.len() == 0,
            r.wifi_password@.len() == 0,
            !r.wifi_finish,
    {
        WifiStorage {
            wifi_ssid: empty_text(),
            wifi_password: empty_text(),
            wifi_finish: false,
        }
    }
}

impl NvsStorage for WifiStorage {
    open spec fn kinds() -> Seq<Kind> {
        seq![Kind::Text(32), Kind::Text(64), Kind::Num(1)]
    }

    open spec fn fields(&self) -> Seq<FieldView> {
        seq![
            FieldView::Text(self.wifi_ssid@),
            FieldView::Text(self.wifi_password@),
            flag(self.wifi_finish),
        ]
    }

    open spec fn bounded(&self) -> bool {
        true
    }

    fn is_bounded(&self) -> (b: bool) {
        true
    }

    fn kind_list() -> (ks: Vec<Kind>) {
        vec![Kind::Text(32), Kind::Text(64), Kind::Num(1)]
    }

    fn to_fields(&self) -> (fs: Vec<Field>) {
        let fs = vec![
            Field::Text(self.wifi_ssid.clone()),
            Field::Text(self.wifi_password.clone()),
            flag_field(self.wifi_finish),
        ];
        assert(views(fs@) =~= self.fields());
        fs
    }

    fn from_fields(fs: &Vec<Field>) -> (r: Self) {
        let r = WifiStorage {
            wifi_ssid: text_at(fs, 0),
            wifi_password: text_at(fs, 1),
            wifi_finish: num_at(fs, 2) == 1,
        };
        assert forall|s: Self| views(fs@) == #[trigger] s.fields() implies r.fields()
            == s.fields() by {
            assert(s.fields()[0] == views(fs@)[0]);
            assert(s.fields()[1] == views(fs@)[1]);
            assert(s.fields()[2] == views(fs@)[2]);
            assert(r.fields() =~= s.fields());
        }
        r
    }
}

/// After how many idle seconds the device sleeps while it reads, and while it shows the weather.
#[derive(Debug, PartialEq, Eq, Clone, Copy, Structural)]
pub struct SleepStorage {
    pub read_sleep_seconds: u64,
    pub weather_sleep_seconds: u64,
}

impl Default for SleepStorage {
    /// Nothing configured.
    fn default() -> (r: Self)
        ensures
            r == (SleepStorage { read_sleep_seconds: 0, weather_sleep_seconds: 0 }),
    {
        SleepStorage { read_sleep_seconds: 0, weather_sleep_seconds: 0 }
    }
}

impl NvsStorage for SleepStorage {
    open spec fn kinds() -> Seq<Kind> {
        seq![Kind::Num(8), Kind::Num(8)]
    }

    open spec fn fields(&self) -> Seq<FieldView> {
        seq![
            FieldView::Num(self.read_sleep_seconds),
            FieldView::Num(self.weather_sleep_seconds),
        ]
    }

    open spec fn bounded(&self) -> bool {
        true
    }

    fn is_bounded(&self) -> (b: bool) {
        true
    }

    fn kind_list() -> (ks: Vec<Kind>) {
        vec![Kind::Num(8), Kind::Num(8)]
    }

    fn to_fields(&self) -> (fs: Vec<Field>) {
        let fs = vec![
            Field::Num(self.read_sleep_seconds),
            Field::Num(self.weather_sleep_seconds),
        ];
        assert(views(fs@) =~= self.fields());
        fs
    }

    fn from_fields(fs: &Vec<Field>) -> (r: Self) {
        let r = SleepStorage {
            read_sleep_seconds: num_at(fs, 0),
            weather_sleep_seconds: num_at(fs, 1),
        };
        assert forall|s: Self| views(fs@) == #[trigger] s.fields() implies r.fields()
            == s.fields() by {
            assert(s.fields()[0] == views(fs@)[0]);
            assert(s.fields()[1] == views(fs@)[1]);
            assert(r.fields() =~= s.fields());
        }
        r
    }
}

/// Room that is not used yet.
#[derive(Debug)]
pub struct OtherStorage {
    pub data: String,
}

impl Default for OtherStorage {
    /// Nothing.
    fn default() -> (r: Self)
        ensures
            r.data@.len() == 0,
    {
        OtherStorage { data: empty_text() }
    }
}

impl NvsStorage for OtherStorage {
    open spec fn kinds() -> Seq<Kind> {
        seq![Kind::Text(64)]
    }

    open spec fn fields(&self) -> Seq<FieldView> {
        seq![FieldView::Text(self.data@)]
    }

    open spec fn bounded(&self) -> bool {
        true
    }

    fn is_bounded(&self) -> (b: bool) {
        true
    }

    fn kind_list() -> (ks: Vec<Kind>) {
        vec![Kind::Text(64)]
    }

    fn to_fields(&self) -> (fs: Vec<Field>) {
        let fs = vec![Field::Text(self.data.clone())];
        assert(views(fs@) =~= self.fields());
        fs
    }

    fn from_fields(fs: &Vec<Field>) -> (r: Self) {
        let r = OtherStorage { data: text_at(fs, 0) };
        assert forall|s: Self| views(fs@) == #[trigger] s.fields() implies r.fields()
            == s.fields() by {
            assert(s.fields()[0] == views(fs@)[0]);
            assert(r.fields() =~= s.fields());
        }
        r
    }
}

/// How many crashes there were, and the last of them.
#[derive(Debug)]
pub struct ErrorLogStorage {
    pub error_count: u32,
    pub last_error: String,
}

impl Default for ErrorLogStorage {
    /// No crash.
    fn default() -> (r: Self)
        ensures
            r.error_count == 0,
            r.last_error@.len() == 0,
    {
        ErrorLogStorage { error_count: 0, last_error: empty_text() }
    }
}

impl NvsStorage for ErrorLogStorage {
    open spec fn kinds() -> Seq<Kind> {
        seq![Kind::Num(4), Kind::Text(200)]
    }

    open spec fn fields(&self) -> Seq<FieldView> {
        seq![FieldView::Num(self.error_count as u64), FieldView::Text(self.last_error@)]
    }

    open spec fn bounded(&self) -> bool {
        true
    }

    fn is_bounded(&self) -> (b: bool) {
        true
    }

    fn kind_list() -> (ks: Vec<Kind>) {
        vec![Kind::Num(4), Kind::Text(200)]
    }

    fn to_fields(&self) -> (fs: Vec<Field>) {
        let fs = vec![Field::Num(self.error_count as u64), Field::Text(self.last_error.clone())];
        assert(views(fs@) =~= self.fields());
        fs
    }

    fn from_fields(fs: &Vec<Field>) -> (r: Self) {
        let r = ErrorLogStorage {
            error_count: to_u32(num_at(fs, 0)),
            last_error: text_at(fs, 1),
        };
        assert forall|s: Self| views(fs@) == #[trigger] s.fields() implies r.fields()
            == s.fields() by {
            assert(s.fields()[0] == views(fs@)[0]);
            assert(s.fields()[1] == views(fs@)[1]);
            assert(r.fields() =~= s.fields());
        }
        r
    }
}

impl ErrorLogStorage {
    /// Counts a crash and keeps it in place of the one before.
    pub fn record(self, message: String) -> (e: ErrorLogStorage)
        requires
            self.error_count < u32::MAX,
        ensures
            e.error_count == self.error_count + 1,
            e.last_error == message,
    {
        ErrorLogStorage { error_count: self.error_count + 1, last_error: message }
    }
}

/// After how many quick refreshes the panel is refreshed fully; nought where that is not configured.
#[derive(Debug, PartialEq, Eq, Clone, Copy, Structural)]
pub struct DisplayStorage {
    pub full_refresh_times: u32,
}

impl Default for DisplayStorage {
    /// Nothing configured.
    fn default() -> (r: Self)
        ensures
            r.full_refresh_times == 0,
    {
        DisplayStorage { full_refresh_times: 0 }
    }
}

impl NvsStorage for DisplayStorage {
    open spec fn kinds() -> Seq<Kind> {
        seq![Kind::Num(4)]
    }

    open spec fn fields(&self) -> Seq<FieldView> {
        seq![FieldView::Num(self.full_refresh_times as u64)]
    }

    open spec fn bounded(&self) -> bool {
        true
    }

    fn is_bounded(&self) -> (b: bool) {
        true
    }

    fn kind_list() -> (ks: Vec<Kind>) {
        vec![Kind::Num(4)]
    }

    fn to_fields(&self) -> (fs: Vec<Field>) {
        let fs = vec![Field::Num(self.full_refresh_times as u64)];
        assert(views(fs@) =~= self.fields());
        fs
    }

    fn from_fields(fs: &Vec<Field>) -> (r: Self) {
        let r = DisplayStorage { full_refresh_times: to_u32(num_at(fs, 0)) };
        assert forall|s: Self| views(fs@) == #[trigger] s.fields() implies r.fields()
            == s.fields() by {
            assert(s.fields()[0] == views(fs@)[0]);
            assert(r.fields() =~= s.fields());
        }
        r
    }
}

/// A network is kept whole: its name, its password, and whether it is set up.
pub proof fn law_networks_are_kept_whole(a: WifiStorage, b: WifiStorage)
    requires
        storable(a),
        storable(b),
        bytes_of(a) == bytes_of(b),
    ensures
        a.wifi_ssid@ == b.wifi_ssid@,
        a.wifi_password@ == b.wifi_password@,
        a.wifi_finish == b.wifi_finish,
{
    law_read_gives_back_what_was_written(a, b);
    let f = a.fields();
    let g = b.fields();
    assert(f[0] == g[0] && f[1] == g[1] && f[2] == g[2]);
}

/// The times until sleep, the version, the last crash, the free text and the refreshes are kept whole.
pub proof fn law_numbers_are_kept_whole(
    a: SleepStorage,
    b: SleepStorage,
    c: VersionStorage,
    d: VersionStorage,
    e: DisplayStorage,
    f: DisplayStorage,
)
    requires
        storable(a) && storable(b) && bytes_of(a) == bytes_of(b),
        storable(c) && storable(d) && bytes_of(c) == bytes_of(d),
        storable(e) && storable(f) && bytes_of(e) == bytes_of(f),
    ensures
        a == b,
        c == d,
        e.full_refresh_times == f.full_refresh_times,
{
    law_read_gives_back_what_was_written(a, b);
    law_read_gives_back_what_was_written(c, d);
    law_read_gives_back_what_was_written(e, f);
    assert(a.fields()[0] == b.fields()[0] && a.fields()[1] == b.fields()[1]);
    assert(c.fields()[0] == d.fields()[0] && c.fields()[1] == d.fields()[1]);
    assert(e.fields()[0] == f.fields()[0]);
}

/// The last crash and the free text are kept whole.
pub proof fn law_texts_are_kept_whole(
    a: ErrorLogStorage,
    b: ErrorLogStorage,
    c: OtherStorage,
    d: OtherStorage,
)
    requires
        storable(a) && storable(b) && bytes_of(a) == bytes_of(b),
        storable(c) && storable(d) && bytes_of(c) == bytes_of(d),
    ensures
        a.error_count == b.error_count,
        a.last_error@ == b.last_error@,
        c.data@ == d.data@,
{
    law_read_gives_back_what_was_written(a, b);
    law_read_gives_back_what_was_written(c, d);
    assert(a.fields()[0] == b.fields()[0] && a.fields()[1] == b.fields()[1]);
    assert(c.fields()[0] == d.fields()[0]);
}

} // verus!
