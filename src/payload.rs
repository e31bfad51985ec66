use vstd::prelude::*;

use crate::shape::{ParamType, PathArguments};
use crate::variant::ArgType;

verus! {

/// A decoded plain argument.
#[derive(Debug, Clone, Copy, PartialEq, Eq, Structural)]
pub enum ArgValue {
    U8(u8),
    U16(u16),
    U32(u32),
    U64(u64),
    Bool(bool),
}

/// Unsigned little-endian value of the bytes.
pub open spec fn le_value(s: Seq<u8>) -> nat
    decreases s.len(),
{
    if s.len() == 0 {
        0
    } else {
        s[0] as nat + 256 * le_value(s.drop_first())
    }
}

pub open spec fn pow256(n: nat) -> nat
    decreases n,
{
    if n == 0 {
        1
    } else {
        256 * pow256((n - 1) as nat)
    }
}

/// Encoded size of a value of the type.
pub open spec fn width(t: ArgType) -> nat {
    match t {
        ArgType::U8 => 1,
        ArgType::U16 => 2,
        ArgType::U32 => 4,
        ArgType::U64 => 8,
        ArgType::Bool => 1,
    }
}

/// The value at the front of `s`: fixed-width little-endian integers, and a
/// boolean byte that must be 0 or 1.
pub open spec fn decode_one(t: ArgType, s: Seq<u8>) -> Option<ArgValue> {
    if s.len() < width(t) {
        None
    } else {
        let v = le_value(s.take(width(t) as int));
        match t {
            ArgType::U8 => Some(ArgValue::U8(v as u8)),
            ArgType::U16 => Some(ArgValue::U16(v as u16)),
            ArgType::U32 => Some(ArgValue::U32(v as u32)),
            ArgType::U64 => Some(ArgValue::U64(v as u64)),
            ArgType::Bool => if v == 0 {
                Some(ArgValue::Bool(false))
            } else if v == 1 {
                Some(ArgValue::Bool(true))
            } else {
                None
            },
        }
    }
}

/// The values of the given types encoded one after another, filling `s` exactly.
pub open spec fn decode_args(types: Seq<ArgType>, s: Seq<u8>) -> Option<Seq<ArgValue>>
    decreases types.len(),
{
    if types.len() == 0 {
        if s.len() == 0 {
            Some(Seq::empty())
        } else {
            None
        }
    } else {
        match decode_one(types[0], s) {
            None => None,
            Some(v) => match decode_args(types.drop_first(), s.skip(width(types[0]) as int)) {
                Some(rest) => Some(seq![v] + rest),
                None => None,
            },
        }
    }
}

pub open spec fn arg_type_named(name: Seq<char>) -> Option<ArgType> {
    if name == "u8"@ {
        Some(ArgType::U8)
    } else if name == "u16"@ {
        Some(ArgType::U16)
    } else if name == "u32"@ {
        Some(ArgType::U32)
    } else if name == "u64"@ {
        Some(ArgType::U64)
    } else if name == "bool"@ {
        Some(ArgType::Bool)
    } else {
        None
    }
}

/// The payload encoding of a declared type: a bare one-segment path naming
/// one of the decodable primitives.
pub open spec fn arg_type_of(t: ParamType) -> Option<ArgType> {
    match t {
        ParamType::Path(p) => if p.segments@.len() == 1 && p.segments@[0].arguments is Bare {
            arg_type_named(p.segments@[0].ident@)
        } else {
            None
        },
        ParamType::Other(_) => None,
    }
}

/// Every payload argument has a decodable type.
pub open spec fn decodable(args: Seq<(String, ParamType)>) -> bool {
    forall|i: int| 0 <= i < args.len() ==> (#[trigger] arg_type_of(args[i].1)) is Some
}

pub open spec fn arg_types(args: Seq<(String, ParamType)>) -> Seq<ArgType> {
    args.map_values(|p: (String, ParamType)| arg_type_of(p.1)->Some_0)
}

pub fn payload_type(t: &ParamType) -> (r: Option<ArgType>)
    ensures
        r == arg_type_of(*t),
{
    if let ParamType::Path(p) = t {
        if p.segments.len() == 1 {
            if let PathArguments::Bare = &p.segments[0].arguments {
                let name = &p.segments[0].ident;
                return if *name == String::from_str("u8") {
                    Some(ArgType::U8)
                } else if *name == String::from_str("u16") {
                    Some(ArgType::U16)
                } else if *name == String::from_str("u32") {
                    Some(ArgType::U32)
                } else if *name == String::from_str("u64") {
                    Some(ArgType::U64)
                } else if *name == String::from_str("bool") {
                    Some(ArgType::Bool)
                } else {
                    None
                };
            }
        }
    }
    None
}

/// Whether every payload argument has a decodable type.
pub fn all_decodable(args: &Vec<(String, ParamType)>) -> (r: Option<usize>)
    ensures
        r is None <==> decodable(args@),
        r matches Some(i) ==> i < args@.len() && arg_type_of(args@[i as int].1) is None,
{
    let mut i: usize = 0;
    while i < args.len()
        invariant
            i <= args@.len(),
            forall|j: int| 0 <= j < i ==> (#[trigger] arg_type_of(args@[j].1)) is Some,
        decreases args@.len() - i,
    {
        if payload_type(&args[i].1).is_none() {
            return Some(i);
        }
        i = i + 1;
    }
    None
}

proof fn lemma_le_step(s: Seq<u8>, a: int, b: int)
    requires
        0 < a <= b <= s.len(),
    ensures
        le_value(s.subrange(a - 1, b)) == s[a - 1] as nat + 256 * le_value(s.subrange(a, b)),
{
    assert(s.subrange(a - 1, b).drop_first() =~= s.subrange(a, b));
}

proof fn lemma_le_bound(s: Seq<u8>)
    ensures
        le_value(s) < pow256(s.len()),
    decreases s.len(),
{
    if s.len() > 0 {
        lemma_le_bound(s.drop_first());
        let x = le_value(s.drop_first());
        let p = pow256(s.drop_first().len());
        assert(s[0] as nat + 256 * x < 256 * p) by (nonlinear_arith)
            requires
                x < p,
                s[0] < 256,
        ;
    }
}

proof fn lemma_pow256_mono(a: nat, b: nat)
    requires
        a <= b,
    ensures
        pow256(a) <= pow256(b),
    decreases b,
{
    if a < b {
        lemma_pow256_mono(a, (b - 1) as nat);
    }
}

/// The little-endian value of `w` bytes of `data` from `pos`.
fn read_le(data: &Vec<u8>, pos: usize, w: usize) -> (r: u64)
    requires
        pos + w <= data@.len(),
        1 <= w <= 8,
    ensures
        r as nat == le_value(data@.subrange(pos as int, pos + w)),
        (r as nat) < pow256(w as nat),
{
    let n = data.len();
    let mut acc: u64 = 0;
    let mut k: usize = w;
    while k > 0
        invariant
            k <= w,
            n == data@.len(),
            pos + w <= n,
            w <= 8,
            acc as nat == le_value(data@.subrange(pos + k, pos + w)),
        decreases k,
    {
        proof {
            lemma_le_bound(data@.subrange(pos + k, pos + w));
            lemma_pow256_mono((w - k) as nat, 7);
            reveal_with_fuel(pow256, 8);
            assert(pow256(7) == 72057594037927936nat);
            lemma_le_step(data@, pos + k, pos + w);
        }
        acc = acc * 256 + data[pos + k - 1] as u64;
        k = k - 1;
    }
    proof {
        lemma_le_bound(data@.subrange(pos as int, pos + w));
    }
    acc
}

/// Decodes the plain arguments from the bytes after the discriminant.
pub fn decode_payload(args: &Vec<(String, ParamType)>, data: &Vec<u8>) -> (r: Option<Vec<ArgValue>>)
    requires
        data@.len() >= 1,
        decodable(args@),
    ensures
        match r {
            Some(v) => decode_args(arg_types(args@), data@.skip(1)) == Some(v@) && v@.len()
                == args@.len(),
            None => decode_args(arg_types(args@), data@.skip(1)) is None,
        },
{
    let ghost t = arg_types(args@);
    let ghost d = data@;
    let mut vals: Vec<ArgValue> = Vec::new();
    let mut pos: usize = 1;
    let mut i: usize = 0;
    proof {
        assert(t.skip(0) =~= t);
        match decode_args(t, d.skip(1)) {
            Some(rest) => {
                assert(vals@ + rest =~= rest);
            },
            None => {},
        }
    }
    while i < args.len()
        invariant
            t == arg_types(args@),
            decodable(args@),
            d == data@,
            1 <= pos <= d.len(),
            i <= args@.len(),
            vals@.len() == i,
            decode_args(t, d.skip(1)) == match decode_args(t.skip(i as int), d.skip(pos as int)) {
                Some(rest) => Some(vals@ + rest),
                None => None,
            },
        decreases args@.len() - i,
    {
        let ty = match payload_type(&args[i].1) {
            Some(t) => t,
            None => {
                return None;
            },
        };
        assert(arg_type_of(args@[i as int].1) is Some);
        let ghost ts = t.skip(i as int);
        let ghost ds = d.skip(pos as int);
        assert(ts[0] == ty);
        let w: usize = match ty {
            ArgType::U8 => 1,
            ArgType::U16 => 2,
            ArgType::U32 => 4,
            ArgType::U64 => 8,
            ArgType::Bool => 1,
        };
        if data.len() - pos < w {
            return None;
        }
        let x = read_le(data, pos, w);
        assert(ds.take(w as int) =~= d.subrange(pos as int, pos + w));
        proof {
            reveal_with_fuel(pow256, 9);
        }
        let v = match ty {
            ArgType::U8 => ArgValue::U8(x as u8),
            ArgType::U16 => ArgValue::U16(x as u16),
            ArgType::U32 => ArgValue::U32(x as u32),
            ArgType::U64 => ArgValue::U64(x),
            ArgType::Bool => if x == 0 {
                ArgValue::Bool(false)
            } else if x == 1 {
                ArgValue::Bool(true)
            } else {
                return None;
            },
        };
        assert(decode_one(ty, ds) == Some(v));
        let ghost before = vals@;
        proof {
            assert(ts.drop_first() =~= t.skip(i + 1));
            assert(ds.skip(w as int) =~= d.skip(pos + w));
            match decode_args(t.skip(i + 1), d.skip(pos + w)) {
                Some(rest) => {
                    assert(before.push(v) + rest =~= before + (seq![v] + rest));
                },
                None => {},
            }
        }
        vals.push(v);
        pos = pos + w;
        i = i + 1;
    }
    if pos != data.len() {
        return None;
    }
    assert(vals@ + Seq::<ArgValue>::empty() =~= vals@);
    Some(vals)
}

} // verus!
