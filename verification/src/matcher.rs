use vstd::prelude::*;

use crate::errors::RfCatError;
use vstd::string::StringSliceAdditionalSpecFns;

verus! {

/// Which USB identity a device presents: its normal operating mode, or the
/// bootloader-recovery mode with its own vendor/product pairs.
#[derive(Copy, Clone, PartialEq, Eq, Structural, Debug)]
pub enum DeviceMode {
    Operating,
    Bootloader,
}

/// The built-in vendor/product table for operating-mode devices.
pub open spec fn spec_is_standard_rfcat(vendor: u16, product: u16) -> bool {
    (vendor == 0x0451 && product == 0x4715) || (vendor == 0x1d50 && (product == 0x60ff
        || product == 0x6047 || product == 0x6048 || product == 0x605b || product == 0xecc1))
}

/// The built-in vendor/product table for bootloader-mode devices.
pub open spec fn spec_is_rfcat_bootloader(vendor: u16, product: u16) -> bool {
    vendor == 0x1d50 && (product == 0x6049 || product == 0x604a || product == 0x605c
        || product == 0xecc0)
}

/// The built-in table for the requested mode.
pub open spec fn spec_known_device(mode: DeviceMode, vendor: u16, product: u16) -> bool {
    match mode {
        DeviceMode::Operating => spec_is_standard_rfcat(vendor, product),
        DeviceMode::Bootloader => spec_is_rfcat_bootloader(vendor, product),
    }
}

/// Whether the vendor/product pair is in the built-in operating-mode table.
pub fn is_standard_rfcat(vendor: u16, product: u16) -> (r: bool)
    ensures
        r == spec_is_standard_rfcat(vendor, product),
{
    match (vendor, product) {
        (0x0451, 0x4715) => true,
        (0x1d50, 0x60ff) => true,
        (0x1d50, 0x6047) => true,
        (0x1d50, 0x6048) => true,
        (0x1d50, 0x605b) => true,
        (0x1d50, 0xecc1) => true,
        (_, _) => false,
    }
}

/// Whether the vendor/product pair is in the built-in bootloader-mode table.
pub fn is_rfcat_bootloader(vendor: u16, product: u16) -> (r: bool)
    ensures
        r == spec_is_rfcat_bootloader(vendor, product),
{
    match (vendor, product) {
        (0x1d50, 0x6049) => true,
        (0x1d50, 0x604a) => true,
        (0x1d50, 0x605c) => true,
        (0x1d50, 0xecc0) => true,
        (_, _) => false,
    }
}

/// The value of a hexadecimal digit byte, if it is one.
pub open spec fn spec_hex_digit(b: u8) -> Option<u8> {
    if 0x30 <= b <= 0x39 {
        Some((b - 0x30) as u8)
    } else if 0x61 <= b <= 0x66 {
        Some((b - 0x61 + 10) as u8)
    } else if 0x41 <= b <= 0x46 {
        Some((b - 0x41 + 10) as u8)
    } else {
        None
    }
}

/// The value of a decimal digit byte, if it is one.
pub open spec fn spec_dec_digit(b: u8) -> Option<u8> {
    if 0x30 <= b <= 0x39 {
        Some((b - 0x30) as u8)
    } else {
        None
    }
}

pub open spec fn all_hex_digits(bytes: Seq<u8>) -> bool {
    forall|i: int| 0 <= i < bytes.len() ==> spec_hex_digit(#[trigger] bytes[i]) is Some
}

pub open spec fn all_dec_digits(bytes: Seq<u8>) -> bool {
    forall|i: int| 0 <= i < bytes.len() ==> spec_dec_digit(#[trigger] bytes[i]) is Some
}

/// The value of a hexadecimal digit string, folded left onto `acc`.
pub open spec fn hex_val_from(bytes: Seq<u8>, acc: int) -> int
    decreases bytes.len(),
{
    if bytes.len() == 0 {
        acc
    } else {
        hex_val_from(bytes.drop_first(), acc * 16 + spec_hex_digit(bytes.first())->Some_0)
    }
}

/// The value of a decimal digit string, folded left onto `acc`.
pub open spec fn dec_val_from(bytes: Seq<u8>, acc: int) -> int
    decreases bytes.len(),
{
    if bytes.len() == 0 {
        acc
    } else {
        dec_val_from(bytes.drop_first(), acc * 10 + spec_dec_digit(bytes.first())->Some_0)
    }
}

/// What a hexadecimal token parses to: a non-empty string of hexadecimal
/// digits whose value fits 16 bits; anything else is malformed.
pub open spec fn spec_parse_hex16(bytes: Seq<u8>) -> Option<u16> {
    if bytes.len() > 0 && all_hex_digits(bytes) && hex_val_from(bytes, 0) <= 0xffff {
        Some(hex_val_from(bytes, 0) as u16)
    } else {
        None
    }
}

/// What a decimal token parses to: a non-empty string of decimal digits
/// whose value fits 8 bits; anything else is malformed.
pub open spec fn spec_parse_dec8(bytes: Seq<u8>) -> Option<u8> {
    if bytes.len() > 0 && all_dec_digits(bytes) && dec_val_from(bytes, 0) <= 0xff {
        Some(dec_val_from(bytes, 0) as u8)
    } else {
        None
    }
}

/// The position of the first comma byte, if any.
pub open spec fn first_comma(bytes: Seq<u8>) -> Option<int>
    decreases bytes.len(),
{
    if bytes.len() == 0 {
        None
    } else if bytes[0] == 44u8 {
        Some(0)
    } else {
        match first_comma(bytes.drop_first()) {
            Some(j) => Some(j + 1),
            None => None,
        }
    }
}

pub open spec fn has_comma(bytes: Seq<u8>) -> bool {
    exists|i: int| 0 <= i < bytes.len() && bytes[i] == 44u8
}

/// What a `"<hex>,<hex>"` selector token parses to: exactly one comma, with
/// a well-formed 16-bit hexadecimal value on each side.
pub open spec fn spec_parse_hex_pair(bytes: Seq<u8>) -> Option<(u16, u16)> {
    match first_comma(bytes) {
        None => None,
        Some(i) => {
            let left = bytes.subrange(0, i);
            let right = bytes.subrange(i + 1, bytes.len() as int);
            if has_comma(right) {
                None
            } else {
                match (spec_parse_hex16(left), spec_parse_hex16(right)) {
                    (Some(v), Some(p)) => Some((v, p)),
                    _ => None,
                }
            }
        },
    }
}

/// What a `"<dec>,<dec>"` selector token parses to: exactly one comma, with
/// a well-formed 8-bit decimal value on each side.
pub open spec fn spec_parse_dec_pair(bytes: Seq<u8>) -> Option<(u8, u8)> {
    match first_comma(bytes) {
        None => None,
        Some(i) => {
            let left = bytes.subrange(0, i);
            let right = bytes.subrange(i + 1, bytes.len() as int);
            if has_comma(right) {
                None
            } else {
                match (spec_parse_dec8(left), spec_parse_dec8(right)) {
                    (Some(b), Some(a)) => Some((b, a)),
                    _ => None,
                }
            }
        },
    }
}

proof fn lemma_first_comma_at(bytes: Seq<u8>, i: int)
    requires
        0 <= i < bytes.len(),
        bytes[i] == 44u8,
        forall|j: int| 0 <= j < i ==> bytes[j] != 44u8,
    ensures
        first_comma(bytes) == Some(i),
    decreases bytes.len(),
{
    if i > 0 {
        lemma_first_comma_at(bytes.drop_first(), i - 1);
    }
}

proof fn lemma_no_comma(bytes: Seq<u8>)
    requires
        forall|j: int| 0 <= j < bytes.len() ==> bytes[j] != 44u8,
    ensures
        first_comma(bytes) is None,
    decreases bytes.len(),
{
    if bytes.len() > 0 {
        lemma_no_comma(bytes.drop_first());
    }
}

proof fn lemma_hex_val_from_ge(bytes: Seq<u8>, acc: int)
    requires
        acc >= 0,
        all_hex_digits(bytes),
    ensures
        hex_val_from(bytes, acc) >= acc,
    decreases bytes.len(),
{
    if bytes.len() > 0 {
        let d = spec_hex_digit(bytes.first())->Some_0;
        assert(spec_hex_digit(bytes[0]) is Some);
        assert(d >= 0);
        assert(all_hex_digits(bytes.drop_first()));
        lemma_hex_val_from_ge(bytes.drop_first(), acc * 16 + d);
    }
}

proof fn lemma_dec_val_from_ge(bytes: Seq<u8>, acc: int)
    requires
        acc >= 0,
        all_dec_digits(bytes),
    ensures
        dec_val_from(bytes, acc) >= acc,
    decreases bytes.len(),
{
    if bytes.len() > 0 {
        let d = spec_dec_digit(bytes.first())->Some_0;
        assert(spec_dec_digit(bytes[0]) is Some);
        assert(d >= 0);
        assert(all_dec_digits(bytes.drop_first()));
        lemma_dec_val_from_ge(bytes.drop_first(), acc * 10 + d);
    }
}

/// The value of one hexadecimal digit byte, or `None`.
fn hex_digit(b: u8) -> (r: Option<u8>)
    ensures
        r == spec_hex_digit(b),
{
    if 0x30 <= b && b <= 0x39 {
        Some(b - 0x30)
    } else if 0x61 <= b && b <= 0x66 {
        Some(b - 0x61 + 10)
    } else if 0x41 <= b && b <= 0x46 {
        Some(b - 0x41 + 10)
    } else {
        None
    }
}

/// The value of one decimal digit byte, or `None`.
fn dec_digit(b: u8) -> (r: Option<u8>)
    ensures
        r == spec_dec_digit(b),
{
    if 0x30 <= b && b <= 0x39 {
        Some(b - 0x30)
    } else {
        None
    }
}

/// Parse `b[start..end]` as a 16-bit hexadecimal value.
fn parse_hex16_range(b: &[u8], start: usize, end: usize) -> (r: Option<u16>)
    requires
        start <= end <= b@.len(),
    ensures
        r == spec_parse_hex16(b@.subrange(start as int, end as int)),
{
    let ghost sub = b@.subrange(start as int, end as int);
    if start == end {
        return None;
    }
    let mut acc: u32 = 0;
    let mut i: usize = start;
    proof {
        assert(sub.skip(0) =~= sub);
        assert(sub.take(0) =~= Seq::<u8>::empty());
    }
    while i < end
        invariant
            start <= i <= end <= b@.len(),
            sub == b@.subrange(start as int, end as int),
            acc <= 0xffff,
            all_hex_digits(sub.take(i - start)),
            all_hex_digits(sub) ==> hex_val_from(sub, 0) == hex_val_from(
                sub.skip(i - start),
                acc as int,
            ),
        decreases end - i,
    {
        let ghost k = i - start;
        match hex_digit(b[i]) {
            None => {
                proof {
                    assert(sub[k] == b@[i as int]);
                    assert(!all_hex_digits(sub));
                }
                return None;
            },
            Some(d) => {
                proof {
                    assert(sub[k] == b@[i as int]);
                    assert(sub.take(k + 1) =~= sub.take(k).push(sub[k]));
                    assert(all_hex_digits(sub.take(k + 1)));
                    if all_hex_digits(sub) {
                        assert(sub.skip(k).first() == sub[k]);
                        assert(sub.skip(k).drop_first() =~= sub.skip(k + 1));
                        assert(hex_val_from(sub.skip(k), acc as int) == hex_val_from(
                            sub.skip(k + 1),
                            acc as int * 16 + d,
                        ));
                    }
                }
                let next: u32 = acc * 16 + d as u32;
                if next > 0xffff {
                    proof {
                        if all_hex_digits(sub) {
                            assert(all_hex_digits(sub.skip(k + 1))) by {
                                assert(forall|j: int|
                                    0 <= j < sub.skip(k + 1).len() ==> #[trigger] sub.skip(k + 1)[j]
                                        == sub[j + k + 1]);
                            }
                            lemma_hex_val_from_ge(sub.skip(k + 1), next as int);
                            assert(hex_val_from(sub, 0) > 0xffff);
                        }
                    }
                    return None;
                }
                acc = next;
            },
        }
        i = i + 1;
    }
    proof {
        assert(sub.take(sub.len() as int) =~= sub);
        assert(sub.skip(sub.len() as int) =~= Seq::<u8>::empty());
        assert(all_hex_digits(sub));
        assert(hex_val_from(sub, 0) == acc as int);
    }
    Some(acc as u16)
}

/// Parse `b[start..end]` as an 8-bit decimal value.
fn parse_dec8_range(b: &[u8], start: usize, end: usize) -> (r: Option<u8>)
    requires
        start <= end <= b@.len(),
    ensures
        r == spec_parse_dec8(b@.subrange(start as int, end as int)),
{
    let ghost sub = b@.subrange(start as int, end as int);
    if start == end {
        return None;
    }
    let mut acc: u32 = 0;
    let mut i: usize = start;
    proof {
        assert(sub.skip(0) =~= sub);
        assert(sub.take(0) =~= Seq::<u8>::empty());
    }
    while i < end
        invariant
            start <= i <= end <= b@.len(),
            sub == b@.subrange(start as int, end as int),
            acc <= 0xff,
            all_dec_digits(sub.take(i - start)),
            all_dec_digits(sub) ==> dec_val_from(sub, 0) == dec_val_from(
                sub.skip(i - start),
                acc as int,
            ),
        decreases end - i,
    {
        let ghost k = i - start;
        match dec_digit(b[i]) {
            None => {
                proof {
                    assert(sub[k] == b@[i as int]);
                    assert(!all_dec_digits(sub));
                }
                return None;
            },
            Some(d) => {
                proof {
                    assert(sub[k] == b@[i as int]);
                    assert(sub.take(k + 1) =~= sub.take(k).push(sub[k]));
                    assert(all_dec_digits(sub.take(k + 1)));
                    if all_dec_digits(sub) {
                        assert(sub.skip(k).first() == sub[k]);
                        assert(sub.skip(k).drop_first() =~= sub.skip(k + 1));
                        assert(dec_val_from(sub.skip(k), acc as int) == dec_val_from(
                            sub.skip(k + 1),
                            acc as int * 10 + d,
                        ));
                    }
                }
                let next: u32 = acc * 10 + d as u32;
                if next > 0xff {
                    proof {
                        if all_dec_digits(sub) {
                            assert(all_dec_digits(sub.skip(k + 1))) by {
                                assert(forall|j: int|
                                    0 <= j < sub.skip(k + 1).len() ==> #[trigger] sub.skip(k + 1)[j]
                                        == sub[j + k + 1]);
                            }
                            lemma_dec_val_from_ge(sub.skip(k + 1), next as int);
                            assert(dec_val_from(sub, 0) > 0xff);
                        }
                    }
                    return None;
                }
                acc = next;
            },
        }
        i = i + 1;
    }
    proof {
        assert(sub.take(sub.len() as int) =~= sub);
        assert(sub.skip(sub.len() as int) =~= Seq::<u8>::empty());
        assert(all_dec_digits(sub));
        assert(dec_val_from(sub, 0) == acc as int);
    }
    Some(acc as u8)
}

/// Find the single comma of a selector token: its index, or `None` when the
/// token has no comma or more than one.
fn find_single_comma(b: &[u8]) -> (r: Option<usize>)
    ensures
        match r {
            Some(i) => i < b@.len() && first_comma(b@) == Some(i as int) && !has_comma(
                b@.subrange(i as int + 1, b@.len() as int),
            ),
            None => first_comma(b@) is None || has_comma(
                b@.subrange(first_comma(b@)->Some_0 + 1, b@.len() as int),
            ),
        },
{
    let n = b.len();
    let mut i: usize = 0;
    while i < n
        invariant
            0 <= i <= n == b@.len(),
            forall|j: int| 0 <= j < i ==> b@[j] != 44u8,
        decreases n - i,
    {
        if b[i] == 44 {
            proof {
                lemma_first_comma_at(b@, i as int);
            }
            // reject a second comma anywhere after the first
            let mut j: usize = i + 1;
            while j < n
                invariant
                    i < j <= n == b@.len(),
                    first_comma(b@) == Some(i as int),
                    forall|t: int| i < t < j ==> b@[t] != 44u8,
                decreases n - j,
            {
                if b[j] == 44 {
                    proof {
                        let rest = b@.subrange(i as int + 1, b@.len() as int);
                        assert(rest[j - i - 1] == b@[j as int]);
                        assert(has_comma(rest));
                    }
                    return None;
                }
                j = j + 1;
            }
            proof {
                let rest = b@.subrange(i as int + 1, b@.len() as int);
                assert(forall|t: int| 0 <= t < rest.len() ==> rest[t] == b@[t + i + 1]);
                assert(!has_comma(rest));
            }
            return Some(i);
        }
        i = i + 1;
    }
    proof {
        lemma_no_comma(b@);
    }
    None
}

/// Parse a `"<vendor hex>,<product hex>"` selector token. A malformed token
/// is a configuration error surfaced to the caller, never dropped.
pub fn parse_two_hex(twohex: &str) -> (r: Result<(u16, u16), RfCatError>)
    ensures
        match spec_parse_hex_pair(twohex.spec_bytes()) {
            Some(vp) => r == Ok::<(u16, u16), RfCatError>(vp),
            None => r == Err::<(u16, u16), RfCatError>(RfCatError::BadSelector),
        },
{
    let b = twohex.as_bytes();
    match find_single_comma(b) {
        None => Err(RfCatError::BadSelector),
        Some(ci) => {
            let n = b.len();
            let left = parse_hex16_range(b, 0, ci);
            let right = parse_hex16_range(b, ci + 1, n);
            match (left, right) {
                (Some(v), Some(p)) => Ok((v, p)),
                _ => Err(RfCatError::BadSelector),
            }
        },
    }
}

/// Parse a `"<bus decimal>,<address decimal>"` selector token. A malformed
/// token is a configuration error surfaced to the caller, never dropped.
pub fn parse_two_ints(twoints: &str) -> (r: Result<(u8, u8), RfCatError>)
    ensures
        match spec_parse_dec_pair(twoints.spec_bytes()) {
            Some(ba) => r == Ok::<(u8, u8), RfCatError>(ba),
            None => r == Err::<(u8, u8), RfCatError>(RfCatError::BadSelector),
        },
{
    let b = twoints.as_bytes();
    match find_single_comma(b) {
        None => Err(RfCatError::BadSelector),
        Some(ci) => {
            let n = b.len();
            let left = parse_dec8_range(b, 0, ci);
            let right = parse_dec8_range(b, ci + 1, n);
            match (left, right) {
                (Some(bus), Some(addr)) => Ok((bus, addr)),
                _ => Err(RfCatError::BadSelector),
            }
        },
    }
}

/// Whether every vendor/product token in the list is well formed.
pub open spec fn spec_vp_tokens_ok(toks: Seq<&str>) -> bool {
    forall|i: int|
        0 <= i < toks.len() ==> spec_parse_hex_pair(#[trigger] toks[i].spec_bytes()) is Some
}

/// Whether every bus/address token in the list is well formed.
pub open spec fn spec_addr_tokens_ok(toks: Seq<&str>) -> bool {
    forall|i: int|
        0 <= i < toks.len() ==> spec_parse_dec_pair(#[trigger] toks[i].spec_bytes()) is Some
}

/// Parse a list of `"<vendor hex>,<product hex>"` tokens. One malformed
/// token fails the whole list: a configuration error is fatal, not dropped.
pub fn parse_vp(vps: Vec<&str>) -> (r: Result<Vec<(u16, u16)>, RfCatError>)
    ensures
        match r {
            Ok(list) => spec_vp_tokens_ok(vps@) && list@.len() == vps@.len() && (forall|i: int|
                0 <= i < vps@.len() ==> list@[i] == spec_parse_hex_pair(
                    vps@[i].spec_bytes(),
                )->Some_0),
            Err(e) => e == RfCatError::BadSelector && !spec_vp_tokens_ok(vps@),
        },
{
    let mut list: Vec<(u16, u16)> = Vec::new();
    let mut i: usize = 0;
    while i < vps.len()
        invariant
            0 <= i <= vps@.len(),
            list@.len() == i,
            forall|j: int| 0 <= j < i ==> spec_parse_hex_pair(#[trigger] vps@[j].spec_bytes()) is Some,
            forall|j: int|
                0 <= j < i ==> list@[j] == spec_parse_hex_pair(vps@[j].spec_bytes())->Some_0,
        decreases vps@.len() - i,
    {
        match parse_two_hex(vps[i]) {
            Ok(vp) => {
                list.push(vp);
            },
            Err(e) => {
                return Err(e);
            },
        }
        i = i + 1;
    }
    Ok(list)
}

/// Parse a list of `"<bus decimal>,<address decimal>"` tokens. One
/// malformed token fails the whole list.
pub fn parse_addrs(addrs: Vec<&str>) -> (r: Result<Vec<(u8, u8)>, RfCatError>)
    ensures
        match r {
            Ok(list) => spec_addr_tokens_ok(addrs@) && list@.len() == addrs@.len() && (forall|
                i: int,
            |
                0 <= i < addrs@.len() ==> list@[i] == spec_parse_dec_pair(
                    addrs@[i].spec_bytes(),
                )->Some_0),
            Err(e) => e == RfCatError::BadSelector && !spec_addr_tokens_ok(addrs@),
        },
{
    let mut list: Vec<(u8, u8)> = Vec::new();
    let mut i: usize = 0;
    while i < addrs.len()
        invariant
            0 <= i <= addrs@.len(),
            list@.len() == i,
            forall|j: int|
                0 <= j < i ==> spec_parse_dec_pair(#[trigger] addrs@[j].spec_bytes()) is Some,
            forall|j: int|
                0 <= j < i ==> list@[j] == spec_parse_dec_pair(addrs@[j].spec_bytes())->Some_0,
        decreases addrs@.len() - i,
    {
        match parse_two_ints(addrs[i]) {
            Ok(ba) => {
                list.push(ba);
            },
            Err(e) => {
                return Err(e);
            },
        }
        i = i + 1;
    }
    Ok(list)
}

/// The selectors a device set is filtered by, already parsed. `None` for a
/// selector means the caller did not give one.
pub struct DeviceSelection {
    pub addresses: Option<Vec<(u8, u8)>>,
    pub vendor_products: Option<Vec<(u16, u16)>>,
}

pub open spec fn opt_addr_view(o: Option<Vec<(u8, u8)>>) -> Option<Seq<(u8, u8)>> {
    match o {
        Some(v) => Some(v@),
        None => None,
    }
}

pub open spec fn opt_vp_view(o: Option<Vec<(u16, u16)>>) -> Option<Seq<(u16, u16)>> {
    match o {
        Some(v) => Some(v@),
        None => None,
    }
}

/// Whether one enumerated device is selected.
///
/// An explicit bus/address selector matches only those exact addresses and
/// ignores vendor/product entirely, even for devices outside the built-in
/// table. An explicit vendor/product selector matches only those ids and
/// replaces the built-in table. With no selectors at all, the built-in table
/// for the requested mode decides.
pub open spec fn spec_device_selected(
    mode: DeviceMode,
    bus: u8,
    address: u8,
    vendor: u16,
    product: u16,
    addrs: Option<Seq<(u8, u8)>>,
    vps: Option<Seq<(u16, u16)>>,
) -> bool {
    (match addrs {
        Some(a) => a.contains((bus, address)),
        None => true,
    }) && (match vps {
        Some(v) => v.contains((vendor, product)),
        None => match addrs {
            Some(_) => true,
            None => spec_known_device(mode, vendor, product),
        },
    })
}

fn contains_addr(list: &Vec<(u8, u8)>, bus: u8, address: u8) -> (r: bool)
    ensures
        r == list@.contains((bus, address)),
{
    let mut i: usize = 0;
    while i < list.len()
        invariant
            0 <= i <= list@.len(),
            forall|j: int| 0 <= j < i ==> list@[j] != (bus, address),
        decreases list@.len() - i,
    {
        if list[i].0 == bus && list[i].1 == address {
            return true;
        }
        i = i + 1;
    }
    false
}

fn contains_vp(list: &Vec<(u16, u16)>, vendor: u16, product: u16) -> (r: bool)
    ensures
        r == list@.contains((vendor, product)),
{
    let mut i: usize = 0;
    while i < list.len()
        invariant
            0 <= i <= list@.len(),
            forall|j: int| 0 <= j < i ==> list@[j] != (vendor, product),
        decreases list@.len() - i,
    {
        if list[i].0 == vendor && list[i].1 == product {
            return true;
        }
        i = i + 1;
    }
    false
}

impl DeviceSelection {
    /// Build the selection from the raw selector tokens the caller supplied.
    /// Any malformed token is a fatal configuration error.
    pub fn parse(
        usb_addresses: Option<Vec<&str>>,
        usb_vendor_products: Option<Vec<&str>>,
    ) -> (r: Result<DeviceSelection, RfCatError>)
        ensures
            match r {
                Ok(sel) => {
                    &&& match (usb_addresses, opt_addr_view(sel.addresses)) {
                        (None, None) => true,
                        (Some(toks), Some(list)) => spec_addr_tokens_ok(toks@) && list.len()
                            == toks@.len() && (forall|i: int|
                            0 <= i < toks@.len() ==> list[i] == spec_parse_dec_pair(
                                toks@[i].spec_bytes(),
                            )->Some_0),
                        _ => false,
                    }
                    &&& match (usb_vendor_products, opt_vp_view(sel.vendor_products)) {
                        (None, None) => true,
                        (Some(toks), Some(list)) => spec_vp_tokens_ok(toks@) && list.len()
                            == toks@.len() && (forall|i: int|
                            0 <= i < toks@.len() ==> list[i] == spec_parse_hex_pair(
                                toks@[i].spec_bytes(),
                            )->Some_0),
                        _ => false,
                    }
                },
                Err(e) => e == RfCatError::BadSelector && ((usb_addresses matches Some(toks)
                    && !spec_addr_tokens_ok(toks@)) || (usb_vendor_products matches Some(toks)
                    && !spec_vp_tokens_ok(toks@))),
            },
    {
        let addresses = match usb_addresses {
            None => None,
            Some(toks) => match parse_addrs(toks) {
                Ok(list) => Some(list),
                Err(e) => {
                    return Err(e);
                },
            },
        };
        let vendor_products = match usb_vendor_products {
            None => None,
            Some(toks) => match parse_vp(toks) {
                Ok(list) => Some(list),
                Err(e) => {
                    return Err(e);
                },
            },
        };
        Ok(DeviceSelection { addresses, vendor_products })
    }

    /// Whether one enumerated device is selected by this selection.
    pub fn selects(&self, mode: DeviceMode, bus: u8, address: u8, vendor: u16, product: u16) -> (r:
        bool)
        ensures
            r == spec_device_selected(
                mode,
                bus,
                address,
                vendor,
                product,
                opt_addr_view(self.addresses),
                opt_vp_view(self.vendor_products),
            ),
    {
        let addr_ok = match &self.addresses {
            Some(list) => contains_addr(list, bus, address),
            None => true,
        };
        let vp_ok = match &self.vendor_products {
            Some(list) => contains_vp(list, vendor, product),
            None => match &self.addresses {
                Some(_) => true,
                None => match mode {
                    DeviceMode::Operating => is_standard_rfcat(vendor, product),
                    DeviceMode::Bootloader => is_rfcat_bootloader(vendor, product),
                },
            },
        };
        addr_ok && vp_ok
    }
}

/// A vendor/product selector for vendor 0x1d50, product 0x6047 matches
/// exactly the devices with those ids, whatever their bus and address and
/// whether or not they are in the built-in table.
pub proof fn lemma_vp_selector_matches_ids_only(
    mode: DeviceMode,
    bus: u8,
    address: u8,
    vendor: u16,
    product: u16,
)
    ensures
        spec_device_selected(
            mode,
            bus,
            address,
            vendor,
            product,
            None,
            Some(seq![(0x1d50u16, 0x6047u16)]),
        ) <==> (vendor == 0x1d50 && product == 0x6047),
{
    let vps = seq![(0x1d50u16, 0x6047u16)];
    if vendor == 0x1d50 && product == 0x6047 {
        assert(vps[0] == (vendor, product));
        assert(vps.contains((vendor, product)));
    } else {
        assert(forall|i: int| 0 <= i < vps.len() ==> vps[i] != (vendor, product));
    }
}

/// A bus/address selector for bus 1, address 5 matches exactly the device
/// at that attachment point, whatever its vendor and product ids and even
/// if it is not in the built-in table.
pub proof fn lemma_addr_selector_matches_address_only(
    mode: DeviceMode,
    bus: u8,
    address: u8,
    vendor: u16,
    product: u16,
)
    ensures
        spec_device_selected(mode, bus, address, vendor, product, Some(seq![(1u8, 5u8)]), None)
            <==> (bus == 1 && address == 5),
{
    let addrs = seq![(1u8, 5u8)];
    if bus == 1 && address == 5 {
        assert(addrs[0] == (bus, address));
        assert(addrs.contains((bus, address)));
    } else {
        assert(forall|i: int| 0 <= i < addrs.len() ==> addrs[i] != (bus, address));
    }
}

} // verus!
