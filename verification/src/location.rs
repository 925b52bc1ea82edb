//! Where the device is.
use vstd::prelude::*;
#[allow(unused_imports)]
use vstd::string::*;
#[allow(unused_imports)]
use vstd::utf8::*;

use crate::text::{
    dec, dec_text, law_numbers_read_back, lemma_dec_len, lemma_encode_join, num_of, push_within,
    pushed,
};

verus! {

/// Where the place is asked for.
pub const LOCATE_URL: &'static str = "http://ip-api.com/json/?fields=status,lat,lon,city&lang=zh-CN";

/// A place: the city, and the latitude and the longitude with a colon between them.
pub struct LocateResult {
    pub city: String,
    pub latlon: String,
}

/// A coordinate: whether it is below nought, its whole part, and the ten-thousandths of the rest.
#[derive(Clone, Copy, Debug, PartialEq, Eq, Structural)]
pub struct Coord {
    pub neg: bool,
    pub int_part: u32,
    pub frac: u32,
}

/// `n` noughts appended to `s`, as far as there is room.
pub open spec fn noughts(s: Seq<char>, n: int) -> Seq<char>
    decreases n,
{
    if n <= 0 {
        s
    } else {
        pushed(noughts(s, n - 1), "0"@, 12)
    }
}

/// A coordinate with four decimals, in no more than twelve bytes.
pub open spec fn coord_text(c: Coord) -> Seq<char> {
    let frac: nat = if c.frac > 9999 {
        9999
    } else {
        c.frac as nat
    };
    let s: Seq<char> = if c.neg {
        pushed(seq![], "-"@, 12)
    } else {
        seq![]
    };
    let s = pushed(pushed(s, dec(c.int_part as nat), 12), "."@, 12);
    pushed(noughts(s, 4 - dec(frac).len()), dec(frac), 12)
}

/// The decimal digits of a number.
pub fn uint_to_string(n: u32) -> (s: String)
    ensures
        s@ == dec(n as nat),
{
    dec_text(n as u64)
}

/// A coordinate with four decimals.
pub fn format_coord(c: Coord) -> (s: String)
    ensures
        s@ == coord_text(c),
{
    let frac: u32 = if c.frac > 9999 {
        9999
    } else {
        c.frac
    };
    let mut s = String::new();
    assert(s@ =~= seq![]);
    if c.neg {
        push_within(&mut s, "-", 12);
    }
    push_within(&mut s, uint_to_string(c.int_part).as_str(), 12);
    push_within(&mut s, ".", 12);
    let fs = uint_to_string(frac);
    proof {
        lemma_dec_len(frac as nat);
    }
    let digits: usize = fs.as_str().unicode_len();
    let ghost s0 = s@;
    let mut k: usize = digits;
    while k < 4
        invariant
            digits <= k,
            k <= 4 || k == digits,
            digits == dec(frac as nat).len(),
            s@ == noughts(s0, k - digits),
        decreases 4 - k,
    {
        push_within(&mut s, "0", 12);
        k += 1;
    }
    push_within(&mut s, fs.as_str(), 12);
    s
}

/// What an answer says of the place.
pub open spec fn is_located(
    r: Option<LocateResult>,
    status: Option<&str>,
    lat: Option<Coord>,
    lon: Option<Coord>,
    city: Option<&str>,
) -> bool {
    if (status matches Some(s) && s@ != "success"@) || lat is None || lon is None {
        r is None
    } else {
        &&& r is Some
        &&& r->0.city@ == (match city {
            Some(c) => c@,
            None => seq![],
        })
        &&& r->0.latlon@ == pushed(
            pushed(coord_text(lat->0), ":"@, 32),
            coord_text(lon->0),
            32,
        )
    }
}

/// The place, where the answer does not say that it failed and gives both coordinates.
pub fn locate(status: Option<&str>, lat: Option<Coord>, lon: Option<Coord>, city: Option<&str>) -> (r:
    Option<LocateResult>)
    requires
        city matches Some(c) ==> encode_utf8(c@).len() <= 32,
    ensures
        is_located(r, status, lat, lon, city),
{
    if let Some(s) = status {
        if !crate::text::same_text(s, "success") {
            return None;
        }
    }
    match (lat, lon) {
        (Some(lat), Some(lon)) => {
            let mut latlon = format_coord(lat);
            push_within(&mut latlon, ":", 32);
            push_within(&mut latlon, format_coord(lon).as_str(), 32);
            let mut name = String::new();
            if let Some(c) = city {
                name.append(c);
                assert(name@ =~= c@);
            } else {
                assert(name@ =~= seq![]);
            }
            Some(LocateResult { city: name, latlon })
        },
        _ => None,
    }
}

/// A text gives a coordinate: a minus sign where it is below nought, its whole part, a point and
/// four decimals.
pub open spec fn gives_coord(t: Seq<char>, c: Coord) -> bool {
    let n = t.len() as int;
    &&& n >= 6
    &&& t[n - 5] == '.'
    &&& num_of(t.skip(n - 4)) == c.frac
    &&& num_of(
        if c.neg {
            t.subrange(1, n - 5)
        } else {
            t.take(n - 5)
        },
    ) == c.int_part
    &&& t[0] == '-' <==> c.neg
}

proof fn lemma_noughts(s: Seq<char>, n: int)
    requires
        n >= 0,
        encode_utf8(s).len() + n <= 12,
    ensures
        noughts(s, n) == s + Seq::new(n as nat, |i: int| '0'),
        encode_utf8(noughts(s, n)).len() == encode_utf8(s).len() + n,
    decreases n,
{
    reveal_strlit("0");
    if n > 0 {
        lemma_noughts(s, n - 1);
        assert("0"@ =~= seq!['0']);
        is_ascii_chars_encode_utf8("0"@);
        lemma_encode_join(noughts(s, n - 1), "0"@);
        assert(s + Seq::new((n - 1) as nat, |i: int| '0') + "0"@ =~= s + Seq::new(
            n as nat,
            |i: int| '0',
        ));
    } else {
        assert(s + Seq::new(0, |i: int| '0') =~= s);
    }
}

proof fn lemma_num_of_noughts(n: int, t: Seq<char>)
    requires
        n >= 0,
    ensures
        num_of(Seq::new(n as nat, |i: int| '0') + t) == num_of(t),
    decreases t.len() + n,
{
    let z = Seq::new(n as nat, |i: int| '0');
    if t.len() > 0 {
        lemma_num_of_noughts(n, t.drop_last());
        assert((z + t).drop_last() =~= z + t.drop_last());
        assert((z + t).last() == t.last());
    } else if n > 0 {
        lemma_num_of_noughts(n - 1, t);
        assert((z + t).drop_last() =~= Seq::new((n - 1) as nat, |i: int| '0') + t);
        assert((z + t).last() == '0');
    } else {
        assert(z + t =~= t);
    }
}

proof fn lemma_digits_are_bytes(t: Seq<char>)
    requires
        forall|i: int| 0 <= i < t.len() ==> '0' <= #[trigger] t[i] <= '9',
    ensures
        encode_utf8(t).len() == t.len(),
{
    assert(is_ascii_chars(t));
    is_ascii_chars_encode_utf8(t);
}

/// A coordinate reads back to the ten-thousandth, south and west too.
#[verifier::rlimit(50)]
pub proof fn law_coordinates_read_back(c: Coord)
    requires
        c.int_part <= 999,
        c.frac <= 9999,
    ensures
        gives_coord(coord_text(c), c),
        encode_utf8(coord_text(c)).len() <= 9,
{
    reveal_strlit("-");
    reveal_strlit(".");
    let e = Seq::<char>::empty();
    let whole = dec(c.int_part as nat);
    let frac = dec(c.frac as nat);
    law_numbers_read_back(c.int_part as nat);
    law_numbers_read_back(c.frac as nat);
    lemma_dec_len(c.int_part as nat);
    lemma_dec_len(c.frac as nat);
    lemma_digits_are_bytes(whole);
    lemma_digits_are_bytes(frac);
    is_ascii_chars_encode_utf8("-"@);
    is_ascii_chars_encode_utf8("."@);
    assert(encode_utf8(e) =~= seq![]);
    let s: Seq<char> = if c.neg {
        pushed(e, "-"@, 12)
    } else {
        e
    };
    assert(e + "-"@ =~= "-"@);
    assert(s == if c.neg { "-"@ } else { e });
    lemma_encode_join(s, whole);
    lemma_encode_join(s + whole, "."@);
    let head = s + whole + "."@;
    let k = 4 - frac.len();
    lemma_noughts(head, k);
    let zs = Seq::new(k as nat, |i: int| '0');
    lemma_encode_join(head + zs, frac);
    let t = coord_text(c);
    assert(t == head + zs + frac);
    let n = t.len() as int;
    assert(t.skip(n - 4) =~= zs + frac);
    lemma_num_of_noughts(k, frac);
    if c.neg {
        assert(t.subrange(1, n - 5) =~= whole);
        assert(t[0] == '-');
    } else {
        assert(t.take(n - 5) =~= whole);
        assert(t[0] == whole[0]);
        assert('0' <= whole[0] <= '9');
    }
}

/// A place is given with its latitude first.
pub proof fn law_latitude_comes_first(
    r: LocateResult,
    status: Option<&str>,
    lat: Coord,
    lon: Coord,
    city: Option<&str>,
)
    requires
        is_located(Some(r), status, Some(lat), Some(lon), city),
        lat.int_part <= 999,
        lat.frac <= 9999,
        lon.int_part <= 999,
        lon.frac <= 9999,
    ensures
        exists|a: Seq<char>, b: Seq<char>|
            r.latlon@ == #[trigger] (a + seq![':'] + b) && gives_coord(a, lat) && gives_coord(b, lon),
        city matches Some(c) ==> r.city@ == c@,
        status matches Some(s) ==> s@ == "success"@,
{
    reveal_strlit(":");
    law_coordinates_read_back(lat);
    law_coordinates_read_back(lon);
    let a = coord_text(lat);
    let b = coord_text(lon);
    assert(":"@ =~= seq![':']);
    is_ascii_chars_encode_utf8(":"@);
    lemma_encode_join(a, ":"@);
    lemma_encode_join(a + ":"@, b);
    assert(r.latlon@ == a + seq![':'] + b);
}

} // verus!
