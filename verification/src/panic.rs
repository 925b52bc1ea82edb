//! What is kept of a crash.
use vstd::prelude::*;
#[allow(unused_imports)]
use vstd::string::*;
#[allow(unused_imports)]
use vstd::utf8::*;

use crate::text::{
    Limited, dec, dec_text, hex, hex_text, law_numbers_read_back, lemma_encode_join,
    lemma_pushed_fits, num_of, push_within, pushed, put,
};

verus! {

/// How many bytes of a message are kept.
pub const MESSAGE_MAX: usize = 200;

/// How many addresses of the call stack are kept.
pub const STACK_MAX: usize = 10;

/// Where the crash happened.
pub struct Place {
    pub file: String,
    pub line: u32,
    pub column: u32,
}

/// The place of the crash.
pub open spec fn place_text(p: Option<Place>) -> Seq<char> {
    let cap = MESSAGE_MAX as int;
    match p {
        Some(p) => {
            let s = pushed(pushed(pushed(seq![], "location: "@, cap), p.file@, cap), ":"@, cap);
            let s = pushed(pushed(s, dec(p.line as nat), cap), ":"@, cap);
            pushed(pushed(s, dec(p.column as nat), cap), "\n"@, cap)
        },
        None => pushed(seq![], "location: unknow\n"@, cap),
    }
}

/// The first `n` pieces of a message, up to the first without room.
pub open spec fn pieces(s: Seq<char>, m: Seq<String>, n: int) -> (Seq<char>, bool)
    decreases n,
{
    if n <= 0 {
        (s, false)
    } else {
        put(pieces(s, m, n - 1), m[n - 1]@, MESSAGE_MAX as int)
    }
}

/// The first `n` addresses of the call stack, a line each.
pub open spec fn stack_text(s: Seq<char>, stack: Seq<u64>, n: int) -> Seq<char>
    decreases n,
{
    if n <= 0 {
        s
    } else {
        let cap = MESSAGE_MAX as int;
        let w = (stack_text(s, stack, n - 1), false);
        put(
            put(
                put(put(put(w, "  #"@, cap), dec((n - 1) as nat), cap), " 0x"@, cap),
                hex(stack[n - 1] as nat),
                cap,
            ),
            "\n"@,
            cap,
        ).0
    }
}

/// What is kept of a crash: its place, its message and its call stack, in no more than two hundred
/// bytes.
pub open spec fn crash_text(p: Option<Place>, m: Seq<String>, stack: Seq<u64>) -> Seq<char> {
    let cap = MESSAGE_MAX as int;
    let s = pushed(place_text(p), "error: "@, cap);
    let s = pushed(pieces(s, m, m.len() as int).0, "\n"@, cap);
    let s = pushed(s, "stack:\n"@, cap);
    if stack.len() == 0 {
        pushed(s, "call stack information is not available\n"@, cap)
    } else if stack.len() <= STACK_MAX {
        stack_text(s, stack, stack.len() as int)
    } else {
        stack_text(s, stack, STACK_MAX as int)
    }
}

/// Writes the place of the crash.
fn write_place(p: &Option<Place>) -> (s: String)
    ensures
        s@ == place_text(*p),
{
    let mut s = String::new();
    assert(s@ =~= seq![]);
    match p {
        Some(p) => {
            push_within(&mut s, "location: ", MESSAGE_MAX);
            push_within(&mut s, p.file.as_str(), MESSAGE_MAX);
            push_within(&mut s, ":", MESSAGE_MAX);
            push_within(&mut s, dec_text(p.line as u64).as_str(), MESSAGE_MAX);
            push_within(&mut s, ":", MESSAGE_MAX);
            push_within(&mut s, dec_text(p.column as u64).as_str(), MESSAGE_MAX);
            push_within(&mut s, "\n", MESSAGE_MAX);
        },
        None => {
            push_within(&mut s, "location: unknow\n", MESSAGE_MAX);
        },
    }
    s
}

/// Writes what is kept of a crash: the message comes in pieces, the call stack as addresses.
pub fn error_message(place: &Option<Place>, message: &Vec<String>, stack: &Vec<u64>) -> (s: String)
    ensures
        s@ == crash_text(*place, message@, stack@),
{
    let mut s = write_place(place);
    push_within(&mut s, "error: ", MESSAGE_MAX);
    let ghost s0 = s@;
    let mut w = Limited { text: s, ended: false };
    let mut i: usize = 0;
    while i < message.len()
        invariant
            i <= message@.len(),
            w.written() == pieces(s0, message@, i as int),
        decreases message@.len() - i,
    {
        w.put(message[i].as_str(), MESSAGE_MAX);
        i += 1;
    }
    let mut s = w.text;
    push_within(&mut s, "\n", MESSAGE_MAX);
    push_within(&mut s, "stack:\n", MESSAGE_MAX);
    if stack.len() == 0 {
        push_within(&mut s, "call stack information is not available\n", MESSAGE_MAX);
        return s;
    }
    let n: usize = if stack.len() <= STACK_MAX {
        stack.len()
    } else {
        STACK_MAX
    };
    let ghost s1 = s@;
    let mut k: usize = 0;
    while k < n
        invariant
            k <= n,
            n <= stack@.len(),
            s@ == stack_text(s1, stack@, k as int),
        decreases n - k,
    {
        let mut w = Limited { text: s, ended: false };
        w.put("  #", MESSAGE_MAX);
        w.put(dec_text(k as u64).as_str(), MESSAGE_MAX);
        w.put(" 0x", MESSAGE_MAX);
        w.put(hex_text(stack[k]).as_str(), MESSAGE_MAX);
        w.put("\n", MESSAGE_MAX);
        s = w.text;
        k += 1;
    }
    s
}

/// A text fits into the room of a message.
pub open spec fn fits(s: Seq<char>) -> bool {
    encode_utf8(s).len() <= MESSAGE_MAX
}

proof fn lemma_put_fits(w: (Seq<char>, bool), t: Seq<char>)
    requires
        fits(w.0),
    ensures
        fits(put(w, t, MESSAGE_MAX as int).0),
{
    lemma_pushed_fits(w.0, t, MESSAGE_MAX as int);
}

proof fn lemma_pieces_fit(s: Seq<char>, m: Seq<String>, n: int)
    requires
        fits(s),
    ensures
        fits(pieces(s, m, n).0),
    decreases n,
{
    if n > 0 {
        lemma_pieces_fit(s, m, n - 1);
        lemma_put_fits(pieces(s, m, n - 1), m[n - 1]@);
    }
}

proof fn lemma_stack_fits(s: Seq<char>, stack: Seq<u64>, n: int)
    requires
        fits(s),
    ensures
        fits(stack_text(s, stack, n)),
    decreases n,
{
    if n > 0 {
        let cap = MESSAGE_MAX as int;
        lemma_stack_fits(s, stack, n - 1);
        let w = (stack_text(s, stack, n - 1), false);
        lemma_put_fits(w, "  #"@);
        let w = put(w, "  #"@, cap);
        lemma_put_fits(w, dec((n - 1) as nat));
        let w = put(w, dec((n - 1) as nat), cap);
        lemma_put_fits(w, " 0x"@);
        let w = put(w, " 0x"@, cap);
        lemma_put_fits(w, hex(stack[n - 1] as nat));
        let w = put(w, hex(stack[n - 1] as nat), cap);
        lemma_put_fits(w, "\n"@);
    }
}

/// What is kept of a crash never takes more than two hundred bytes.
pub proof fn law_messages_fit(p: Option<Place>, m: Seq<String>, stack: Seq<u64>)
    ensures
        encode_utf8(crash_text(p, m, stack)).len() <= 200,
{
    let cap = MESSAGE_MAX as int;
    let none = Seq::<char>::empty();
    assert(encode_utf8(none).len() == 0);
    match p {
        Some(p) => {
            lemma_pushed_fits(none, "location: "@, cap);
            let s = pushed(none, "location: "@, cap);
            lemma_pushed_fits(s, p.file@, cap);
            let s = pushed(s, p.file@, cap);
            lemma_pushed_fits(s, ":"@, cap);
            let s = pushed(s, ":"@, cap);
            lemma_pushed_fits(s, dec(p.line as nat), cap);
            let s = pushed(s, dec(p.line as nat), cap);
            lemma_pushed_fits(s, ":"@, cap);
            let s = pushed(s, ":"@, cap);
            lemma_pushed_fits(s, dec(p.column as nat), cap);
            let s = pushed(s, dec(p.column as nat), cap);
            lemma_pushed_fits(s, "\n"@, cap);
        },
        None => {
            lemma_pushed_fits(none, "location: unknow\n"@, cap);
        },
    }
    let s = place_text(p);
    assert(fits(s));
    lemma_pushed_fits(s, "error: "@, cap);
    let s = pushed(s, "error: "@, cap);
    lemma_pieces_fit(s, m, m.len() as int);
    let s = pieces(s, m, m.len() as int).0;
    lemma_pushed_fits(s, "\n"@, cap);
    let s = pushed(s, "\n"@, cap);
    lemma_pushed_fits(s, "stack:\n"@, cap);
    let s = pushed(s, "stack:\n"@, cap);
    lemma_pushed_fits(s, "call stack information is not available\n"@, cap);
    lemma_stack_fits(s, stack, stack.len() as int);
    lemma_stack_fits(s, stack, STACK_MAX as int);
}

/// Where a crash happened reads back: the file, the line and the column, where there is room.
#[verifier::rlimit(50)]
pub proof fn law_place_of_a_crash_reads_back(p: Place)
    requires
        encode_utf8(p.file@).len() <= 150,
    ensures
        exists|l: Seq<char>, c: Seq<char>|
            place_text(Some(p)) == #[trigger] ("location: "@ + p.file@ + seq![':'] + l + seq![':'] + c
                + seq!['\n']) && num_of(l) == p.line && num_of(c) == p.column,
{
    reveal_strlit("location: ");
    reveal_strlit(":");
    reveal_strlit("\n");
    let cap = MESSAGE_MAX as int;
    let e = Seq::<char>::empty();
    let l = dec(p.line as nat);
    let c = dec(p.column as nat);
    law_numbers_read_back(p.line as nat);
    law_numbers_read_back(p.column as nat);
    reveal_with_fuel(ten_to, 11);
    assert(ten_to(10) == 10_000_000_000);
    lemma_short(p.line as nat, 10);
    lemma_short(p.column as nat, 10);
    is_ascii_chars_encode_utf8(l);
    is_ascii_chars_encode_utf8(c);
    is_ascii_chars_encode_utf8("location: "@);
    is_ascii_chars_encode_utf8(":"@);
    is_ascii_chars_encode_utf8("\n"@);
    assert(encode_utf8(e) =~= seq![]);
    assert(":"@ =~= seq![':']);
    assert("\n"@ =~= seq!['\n']);
    let s0 = "location: "@;
    assert(e + s0 =~= s0);
    let s1 = s0 + p.file@;
    let s2 = s1 + ":"@;
    let s3 = s2 + l;
    let s4 = s3 + ":"@;
    let s5 = s4 + c;
    lemma_encode_join(s0, p.file@);
    lemma_encode_join(s1, ":"@);
    lemma_encode_join(s2, l);
    lemma_encode_join(s3, ":"@);
    lemma_encode_join(s4, c);
    lemma_encode_join(s5, "\n"@);
    assert(place_text(Some(p)) == s5 + "\n"@);
    assert(s5 + "\n"@ == "location: "@ + p.file@ + seq![':'] + l + seq![':'] + c + seq!['\n']);
}

proof fn lemma_short(n: nat, k: nat)
    requires
        k >= 1,
        n < ten_to(k),
    ensures
        dec(n).len() <= k,
    decreases k,
{
    reveal_with_fuel(ten_to, 2);
    if n >= 10 {
        if k == 1 {
            assert(ten_to(1) == 10);
        } else {
            assert(ten_to(k) == 10 * ten_to((k - 1) as nat));
            lemma_short(n / 10, (k - 1) as nat);
        }
    }
}

/// Ten times itself so often.
spec fn ten_to(k: nat) -> nat
    decreases k,
{
    if k == 0 {
        1
    } else {
        10 * ten_to((k - 1) as nat)
    }
}

} // verus!
