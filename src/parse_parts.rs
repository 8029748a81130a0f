use vstd::prelude::*;

use crate::context::copy_chars;
use crate::cpu::{reg_name, Register};
use crate::error::{string_of, CompileError, ErrorView};

verus! {

/// Whether the characters of `tok` are those of `w`.
pub fn word_is(tok: &[char], w: &str) -> (r: bool)
    ensures
        r == (tok@ == w@),
{
    let n = w.unicode_len();
    if tok.len() != n {
        return false;
    }
    let mut i: usize = 0;
    while i < n
        invariant
            n == w@.len(),
            tok@.len() == n,
            0 <= i <= n,
            forall|j: int| 0 <= j < i ==> tok@[j] == w@[j],
        decreases n - i,
    {
        if tok[i] != w.get_char(i) {
            return false;
        }
        i = i + 1;
    }
    assert(tok@ =~= w@);
    true
}

pub open spec fn upper_spec(c: char) -> char {
    if 'a' <= c && c <= 'z' {
        ((c as u32) - 32) as char
    } else {
        c
    }
}

/// ASCII letters in upper case; every other character as it is.
pub fn upper_char(c: char) -> (r: char)
    ensures
        r == upper_spec(c),
{
    if 'a' <= c && c <= 'z' {
        ((c as u8) - 32) as char
    } else {
        c
    }
}

pub open spec fn upper_seq(s: Seq<char>) -> Seq<char> {
    s.map_values(|c: char| upper_spec(c))
}

pub fn to_upper(s: &[char]) -> (r: Vec<char>)
    ensures
        r@ == upper_seq(s@),
{
    let mut r: Vec<char> = Vec::new();
    let mut i: usize = 0;
    while i < s.len()
        invariant
            0 <= i <= s.len(),
            r@ == upper_seq(s@.take(i as int)),
        decreases s.len() - i,
    {
        r.push(upper_char(s[i]));
        assert(upper_seq(s@.take(i + 1)) =~= upper_seq(s@.take(i as int)).push(upper_spec(s@[i as int])));
        i = i + 1;
    }
    assert(s@.take(i as int) =~= s@);
    r
}

pub open spec fn is_space(c: char) -> bool {
    c == ' ' || c == '\t' || c == '\r' || c == '\n'
}

pub fn whitespace_checker(c: char) -> (r: bool)
    ensures
        r == is_space(c),
{
    c == ' ' || c == '\t' || c == '\r' || c == '\n'
}

/// The value of a digit in the given radix.
pub open spec fn digit_spec(c: char, radix: nat) -> Option<nat> {
    let d: int = if '0' <= c && c <= '9' {
        c as int - '0' as int
    } else if 'A' <= c && c <= 'F' {
        c as int - 'A' as int + 10
    } else {
        99
    };
    if d < radix {
        Some(d as nat)
    } else {
        None
    }
}

/// The value of a run of digits, `None` when it is empty or holds a non-digit.
pub open spec fn digits_value(ds: Seq<char>, radix: nat) -> Option<nat>
    decreases ds.len(),
{
    if ds.len() == 0 {
        None
    } else {
        let d = digit_spec(ds.last(), radix);
        if d is None {
            None
        } else if ds.len() == 1 {
            d
        } else {
            match digits_value(ds.drop_last(), radix) {
                None => None,
                Some(v) => Some(v * radix + d->0),
            }
        }
    }
}

pub open spec fn radix_of(s: Seq<char>) -> nat {
    if s.len() >= 2 && s[0] == '0' && s[1] == 'X' {
        16
    } else if s.len() >= 2 && s[0] == '0' && s[1] == 'B' {
        2
    } else {
        10
    }
}

pub open spec fn body_of(s: Seq<char>) -> Seq<char> {
    if radix_of(s) == 10 {
        s
    } else {
        s.skip(2)
    }
}

/// The magnitude written by `s` after its sign: `0X` hexadecimal, `0B`
/// binary, decimal otherwise.
pub open spec fn magnitude_spec(s: Seq<char>) -> Option<nat> {
    digits_value(body_of(s), radix_of(s))
}

pub open spec fn is_sign(c: char) -> bool {
    c == '-' || c == '+'
}

/// The 16-bit word a literal writes: non-negative values up to 65535, and
/// negative ones down to -32768 as two's complement.
pub open spec fn constant_spec(s: Seq<char>) -> Option<u16> {
    let neg = s.len() > 0 && s[0] == '-';
    let rest = if s.len() > 0 && is_sign(s[0]) {
        s.skip(1)
    } else {
        s
    };
    match magnitude_spec(rest) {
        None => None,
        Some(m) => if neg {
            if m == 0 {
                Some(0)
            } else if m <= 32768 {
                Some((65536 - m) as u16)
            } else {
                None
            }
        } else if m <= 65535 {
            Some(m as u16)
        } else {
            None
        },
    }
}

fn digit_of(c: char, radix: u32) -> (r: Option<u32>)
    requires
        radix <= 16,
    ensures
        r is Some <==> digit_spec(c, radix as nat) is Some,
        r is Some ==> r->0 as nat == digit_spec(c, radix as nat)->0,
{
    let d: u32 = if '0' <= c && c <= '9' {
        (c as u32) - ('0' as u32)
    } else if 'A' <= c && c <= 'F' {
        (c as u32) - ('A' as u32) + 10
    } else {
        99
    };
    if d < radix {
        Some(d)
    } else {
        None
    }
}

/// The cap above which a magnitude no longer matters.
pub const MAG_CAP: u32 = 0x20000;

pub open spec fn capped(v: nat) -> nat {
    if v > MAG_CAP {
        MAG_CAP as nat
    } else {
        v
    }
}

proof fn lemma_cap_step(v: nat, radix: nat, d: nat)
    requires
        2 <= radix <= 16,
        d < radix,
    ensures
        capped(capped(v) * radix + d) == capped(v * radix + d),
{
    if v > MAG_CAP {
        assert(capped(v) * radix + d >= MAG_CAP as nat * 2) by (nonlinear_arith)
            requires
                capped(v) == MAG_CAP as nat,
                radix >= 2,
        ;
        assert(v * radix + d >= MAG_CAP as nat * 2) by (nonlinear_arith)
            requires
                v > MAG_CAP as nat,
                radix >= 2,
        ;
    }
}

/// The capped value of `ds`, where it is a run of digits.
fn digits_of(ds: &[char], radix: u32) -> (r: Option<u32>)
    requires
        2 <= radix <= 16,
    ensures
        r is Some <==> digits_value(ds@, radix as nat) is Some,
        r is Some ==> r->0 as nat == capped(digits_value(ds@, radix as nat)->0),
{
    if ds.len() == 0 {
        return None;
    }
    let mut acc: u32 = 0;
    let mut i: usize = 0;
    while i < ds.len()
        invariant
            2 <= radix <= 16,
            0 <= i <= ds.len(),
            ds.len() > 0,
            i > 0 ==> digits_value(ds@.take(i as int), radix as nat) is Some,
            i > 0 ==> acc as nat == capped(digits_value(ds@.take(i as int), radix as nat)->0),
            i == 0 ==> acc == 0,
            acc <= MAG_CAP,
        decreases ds.len() - i,
    {
        let d = match digit_of(ds[i], radix) {
            Some(d) => d,
            None => {
                proof {
                    lemma_digits_bad(ds@, radix as nat, i as int);
                }
                return None;
            },
        };
        let ghost pre = ds@.take(i as int);
        assert(ds@.take(i + 1).drop_last() =~= pre);
        assert(ds@.take(i + 1).last() == ds@[i as int]);
        assert(acc * radix <= 0x20000u32 * 16) by (nonlinear_arith)
            requires
                acc <= 0x20000u32,
                radix <= 16,
        ;
        let next: u32 = acc * radix + d;
        proof {
            if i > 0 {
                lemma_cap_step(digits_value(pre, radix as nat)->0, radix as nat, d as nat);
            }
        }
        acc = if next > MAG_CAP {
            MAG_CAP
        } else {
            next
        };
        i = i + 1;
    }
    assert(ds@.take(i as int) =~= ds@);
    Some(acc)
}

proof fn lemma_digits_bad(ds: Seq<char>, radix: nat, i: int)
    requires
        0 <= i < ds.len(),
        digit_spec(ds[i], radix) is None,
    ensures
        digits_value(ds, radix) is None,
    decreases ds.len(),
{
    if i < ds.len() - 1 {
        lemma_digits_bad(ds.drop_last(), radix, i);
    }
}

/// The word a numeric literal writes; `InvalidNumber` when it writes none.
pub fn parse_u16_constant(s: &[char]) -> (r: Result<u16, CompileError>)
    ensures
        constant_spec(s@) is Some ==> r == Ok::<u16, CompileError>(constant_spec(s@)->0),
        constant_spec(s@) is None ==> r is Err && r->Err_0@ == ErrorView::InvalidNumber(s@),
{
    let neg = s.len() > 0 && s[0] == '-';
    let start: usize = if s.len() > 0 && (s[0] == '-' || s[0] == '+') {
        1
    } else {
        0
    };
    let rest = slice_from(s, start);
    assert(rest@ == (if s@.len() > 0 && is_sign(s@[0]) {
        s@.skip(1)
    } else {
        s@
    }));
    let (radix, body_start): (u32, usize) = if rest.len() >= 2 && rest[0] == '0' && rest[1] == 'X' {
        (16, 2)
    } else if rest.len() >= 2 && rest[0] == '0' && rest[1] == 'B' {
        (2, 2)
    } else {
        (10, 0)
    };
    let body = slice_from(rest.as_slice(), body_start);
    assert(body@ == body_of(rest@));
    match digits_of(body.as_slice(), radix) {
        None => Err(CompileError::InvalidNumber(string_of(s))),
        Some(m) => {
            if neg {
                if m == 0 {
                    Ok(0)
                } else if m <= 32768 {
                    Ok((65536 - m) as u16)
                } else {
                    Err(CompileError::InvalidNumber(string_of(s)))
                }
            } else if m <= 65535 {
                Ok(m as u16)
            } else {
                Err(CompileError::InvalidNumber(string_of(s)))
            }
        },
    }
}

/// The characters of `s` from `start` on.
pub fn slice_from(s: &[char], start: usize) -> (r: Vec<char>)
    ensures
        start <= s@.len() ==> r@ == s@.skip(start as int),
        start > s@.len() ==> r@ == Seq::<char>::empty(),
{
    let mut r: Vec<char> = Vec::new();
    let mut i: usize = start;
    while i < s.len()
        invariant
            start <= i,
            i <= s.len() || (start > s.len() && i == start),
            start <= s@.len() ==> r@ == s@.subrange(start as int, i as int),
            start > s@.len() ==> r@ == Seq::<char>::empty(),
        decreases s.len() - i,
    {
        r.push(s[i]);
        assert(s@.subrange(start as int, i + 1) =~= s@.subrange(start as int, i as int).push(s@[i as int]));
        i = i + 1;
    }
    proof {
        if start <= s@.len() {
            assert(s@.subrange(start as int, s@.len() as int) =~= s@.skip(start as int));
        }
    }
    r
}

/// The register a name spells.
pub open spec fn register_spec(s: Seq<char>) -> Option<Register> {
    if s == reg_name(Register::ZX) {
        Some(Register::ZX)
    } else if s == reg_name(Register::PC) {
        Some(Register::PC)
    } else if s == reg_name(Register::R2) {
        Some(Register::R2)
    } else if s == reg_name(Register::R3) {
        Some(Register::R3)
    } else if s == reg_name(Register::R4) {
        Some(Register::R4)
    } else if s == reg_name(Register::R5) {
        Some(Register::R5)
    } else if s == reg_name(Register::LP) {
        Some(Register::LP)
    } else if s == reg_name(Register::SP) {
        Some(Register::SP)
    } else {
        None
    }
}

/// The register a name spells; `UnknownRegister` otherwise.
pub fn parse_register(s: &[char]) -> (r: Result<Register, CompileError>)
    ensures
        register_spec(s@) is Some ==> r == Ok::<Register, CompileError>(register_spec(s@)->0),
        register_spec(s@) is None ==> r is Err && r->Err_0@ == ErrorView::UnknownRegister(s@),
{
    let all = [
        Register::ZX,
        Register::PC,
        Register::R2,
        Register::R3,
        Register::R4,
        Register::R5,
        Register::LP,
        Register::SP,
    ];
    let mut k: usize = 0;
    while k < 8
        invariant
            0 <= k <= 8,
            all@ == seq![
                Register::ZX,
                Register::PC,
                Register::R2,
                Register::R3,
                Register::R4,
                Register::R5,
                Register::LP,
                Register::SP,
            ],
            forall|j: int| 0 <= j < k ==> s@ != reg_name(#[trigger] all@[j]),
        decreases 8 - k,
    {
        if word_is(s, all[k].name()) {
            return Ok(all[k]);
        }
        k = k + 1;
    }
    assert(s@ != reg_name(all@[0]));
    assert(s@ != reg_name(all@[1]));
    assert(s@ != reg_name(all@[2]));
    assert(s@ != reg_name(all@[3]));
    assert(s@ != reg_name(all@[4]));
    assert(s@ != reg_name(all@[5]));
    assert(s@ != reg_name(all@[6]));
    assert(s@ != reg_name(all@[7]));
    Err(CompileError::UnknownRegister(string_of(s)))
}

/// The operands of a statement, taken from the front.
pub struct ParseParts {
    pub parts: Vec<Vec<char>>,
    pub idx: usize,
}

impl ParseParts {

    pub fn new(parts: Vec<Vec<char>>) -> (r: ParseParts)
        ensures
            r.parts@ == parts@,
            r.idx == 0,
    {
        ParseParts { parts, idx: 0 }
    }

    /// The next operand; `NotEnoughArguments` when none is left.
    pub fn pop_front(&mut self) -> (r: Result<Vec<char>, CompileError>)
        ensures
            old(self).idx < old(self).parts@.len() ==> r is Ok && r->Ok_0@ == old(self).parts@[old(
                self,
            ).idx as int]@ && final(self).idx == old(self).idx + 1,
            old(self).idx >= old(self).parts@.len() ==> r is Err && r->Err_0@
                == ErrorView::NotEnoughArguments && final(self).idx == old(self).idx,
            final(self).parts == old(self).parts,
    {
        if self.idx < self.parts.len() {
            let p = copy_chars(self.parts[self.idx].as_slice());
            self.idx = self.idx + 1;
            Ok(p)
        } else {
            Err(CompileError::NotEnoughArguments)
        }
    }

    /// The mnemonic; `NoCommandSupplied` when the statement is empty.
    pub fn pop_command(&mut self) -> (r: Result<Vec<char>, CompileError>)
        ensures
            old(self).idx < old(self).parts@.len() ==> r is Ok && r->Ok_0@ == old(self).parts@[old(
                self,
            ).idx as int]@ && final(self).idx == old(self).idx + 1,
            old(self).idx >= old(self).parts@.len() ==> r is Err && r->Err_0@
                == ErrorView::NoCommandSupplied,
            final(self).parts == old(self).parts,
    {
        match self.pop_front() {
            Ok(p) => Ok(p),
            Err(_) => Err(CompileError::NoCommandSupplied),
        }
    }

    pub fn pop_register(&mut self) -> (r: Result<Register, CompileError>)
        ensures
            old(self).idx < old(self).parts@.len() ==> res_reg(r) == match register_spec(
                old(self).parts@[old(self).idx as int]@,
            ) {
                Some(g) => Ok::<Register, ErrorView>(g),
                None => Err(ErrorView::UnknownRegister(old(self).parts@[old(self).idx as int]@)),
            },
            old(self).idx >= old(self).parts@.len() ==> r is Err && r->Err_0@
                == ErrorView::NotEnoughArguments,
            old(self).idx < old(self).parts@.len() ==> final(self).idx == old(self).idx + 1,
            final(self).parts == old(self).parts,
    {
        let p = self.pop_front()?;
        parse_register(p.as_slice())
    }

    pub fn pop_const(&mut self) -> (r: Result<u16, CompileError>)
        ensures
            old(self).idx < old(self).parts@.len() ==> res_u16(r) == match constant_spec(
                old(self).parts@[old(self).idx as int]@,
            ) {
                Some(v) => Ok::<u16, ErrorView>(v),
                None => Err(ErrorView::InvalidNumber(old(self).parts@[old(self).idx as int]@)),
            },
            old(self).idx >= old(self).parts@.len() ==> r is Err && r->Err_0@
                == ErrorView::NotEnoughArguments,
            old(self).idx < old(self).parts@.len() ==> final(self).idx == old(self).idx + 1,
            final(self).parts == old(self).parts,
    {
        let p = self.pop_front()?;
        parse_u16_constant(p.as_slice())
    }

    /// A shift operand: a constant read as a signed byte.
    pub fn pop_shift(&mut self) -> (r: Result<i8, CompileError>)
        ensures
            old(self).idx < old(self).parts@.len() ==> res_i8(r) == match constant_spec(
                old(self).parts@[old(self).idx as int]@,
            ) {
                Some(v) => if v < 128 || v >= 0xff80 {
                    Ok::<i8, ErrorView>(v as i8)
                } else {
                    Err(ErrorView::InvalidNumber(old(self).parts@[old(self).idx as int]@))
                },
                None => Err(ErrorView::InvalidNumber(old(self).parts@[old(self).idx as int]@)),
            },
            old(self).idx >= old(self).parts@.len() ==> r is Err && r->Err_0@
                == ErrorView::NotEnoughArguments,
            old(self).idx < old(self).parts@.len() ==> final(self).idx == old(self).idx + 1,
            final(self).parts == old(self).parts,
    {
        let p = self.pop_front()?;
        let v = parse_u16_constant(p.as_slice())?;
        if v < 128 || v >= 0xff80 {
            Ok(v as i8)
        } else {
            Err(CompileError::InvalidNumber(string_of(p.as_slice())))
        }
    }

    pub fn pop_label(&mut self) -> (r: Result<Vec<char>, CompileError>)
        ensures
            old(self).idx < old(self).parts@.len() ==> r is Ok && r->Ok_0@ == old(self).parts@[old(
                self,
            ).idx as int]@,
            old(self).idx >= old(self).parts@.len() ==> r is Err && r->Err_0@
                == ErrorView::NotEnoughArguments,
            old(self).idx < old(self).parts@.len() ==> final(self).idx == old(self).idx + 1,
            final(self).parts == old(self).parts,
    {
        self.pop_front()
    }
}

pub open spec fn res_reg(r: Result<Register, CompileError>) -> Result<Register, ErrorView> {
    match r {
        Ok(v) => Ok(v),
        Err(e) => Err(e@),
    }
}

pub open spec fn res_u16(r: Result<u16, CompileError>) -> Result<u16, ErrorView> {
    match r {
        Ok(v) => Ok(v),
        Err(e) => Err(e@),
    }
}

pub open spec fn res_i8(r: Result<i8, CompileError>) -> Result<i8, ErrorView> {
    match r {
        Ok(v) => Ok(v),
        Err(e) => Err(e@),
    }
}

/// Reading `s` from the left: the words finished so far and the word being read.
pub open spec fn split_state(s: Seq<char>) -> (Seq<Seq<char>>, Seq<char>)
    decreases s.len(),
{
    if s.len() == 0 {
        (seq![], seq![])
    } else {
        let (ws, cur) = split_state(s.drop_last());
        let c = s.last();
        if is_space(c) {
            if cur.len() > 0 {
                (ws.push(cur), seq![])
            } else {
                (ws, cur)
            }
        } else {
            (ws, cur.push(c))
        }
    }
}

/// The maximal runs of non-space characters of `s`, in order.
pub open spec fn words_of(s: Seq<char>) -> Seq<Seq<char>> {
    let (ws, cur) = split_state(s);
    if cur.len() > 0 {
        ws.push(cur)
    } else {
        ws
    }
}

pub open spec fn words_view(v: Seq<Vec<char>>) -> Seq<Seq<char>> {
    v.map_values(|w: Vec<char>| w@)
}

/// The whitespace-separated words of `s`.
pub fn split_whitespace(s: &[char]) -> (r: Vec<Vec<char>>)
    ensures
        words_view(r@) == words_of(s@),
{
    let mut r: Vec<Vec<char>> = Vec::new();
    let mut cur: Vec<char> = Vec::new();
    let mut i: usize = 0;
    while i < s.len()
        invariant
            0 <= i <= s.len(),
            (words_view(r@), cur@) == split_state(s@.take(i as int)),
        decreases s.len() - i,
    {
        let c = s[i];
        assert(s@.take(i + 1).drop_last() =~= s@.take(i as int));
        let ghost r0 = r@;
        if whitespace_checker(c) {
            if cur.len() > 0 {
                let ghost c0 = cur@;
                r.push(cur);
                cur = Vec::new();
                assert(words_view(r@) =~= words_view(r0).push(c0));
                assert(cur@ =~= Seq::<char>::empty());
            }
        } else {
            cur.push(c);
        }
        i = i + 1;
    }
    assert(s@.take(i as int) =~= s@);
    if cur.len() > 0 {
        let ghost r0 = r@;
        let ghost c0 = cur@;
        r.push(cur);
        assert(words_view(r@) =~= words_view(r0).push(c0));
    }
    r
}

} // verus!
