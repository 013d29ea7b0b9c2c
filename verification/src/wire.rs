//! The wire-tagging convention the emitted declarations mirror: externally
//! tagged unions. An enum instance serializes as a single-key container
//! keyed by the variant name — nothing for a unit variant (a bare string),
//! the lone value for a one-field tuple variant, an ordered list for a
//! longer tuple variant, a keyed container for a struct variant. The
//! round-trip statement: a value that conforms to a variant, once encoded,
//! matches the shape the emitted declaration gives that variant.

use vstd::prelude::*;

use crate::model::{VariantDef, VariantKind};

verus! {

/// A wire value: the tree a serializer writes and a decoder reads.
pub enum WireValue {
    Null,
    Bool(bool),
    Num(i64),
    Str(String),
    Arr(Vec<WireValue>),
    Obj(Vec<(String, WireValue)>),
}

/// The data carried by one constructed enum instance.
pub enum InstData {
    Unit,
    Single(WireValue),
    Tuple(Vec<WireValue>),
    Struct(Vec<(String, WireValue)>),
}

/// One constructed enum instance about to be serialized.
pub struct VariantInstance {
    pub tag: String,
    pub data: InstData,
}

/// The externally tagged encoding relation: `w` is the wire form of
/// `inst`.
pub open spec fn encode_rel(inst: VariantInstance, w: WireValue) -> bool {
    match inst.data {
        InstData::Unit => w matches WireValue::Str(s) && s@ == inst.tag@,
        InstData::Single(v) => w matches WireValue::Obj(o) && o@.len() == 1 && o@[0].0@
            == inst.tag@ && o@[0].1 == v,
        InstData::Tuple(vs) => {
            &&& w matches WireValue::Obj(o)
            &&& o@.len() == 1
            &&& o@[0].0@ == inst.tag@
            &&& o@[0].1 matches WireValue::Arr(a) && a@ == vs@
        },
        InstData::Struct(fs) => {
            &&& w matches WireValue::Obj(o)
            &&& o@.len() == 1
            &&& o@[0].0@ == inst.tag@
            &&& o@[0].1 matches WireValue::Obj(inner) && inner@ == fs@
        },
    }
}

/// Whether a wire value matches the shape the emitted declaration gives
/// variant `vd`: a bare string naming a unit variant (or a single-key
/// container holding nothing), a single-key container for a one-field tuple
/// variant, a container holding a list of matching arity for a longer tuple
/// variant, and a container holding a keyed record with the declared field
/// names in order for a struct variant.
pub open spec fn decode_matches(w: WireValue, vd: VariantDef) -> bool {
    match vd.kind {
        VariantKind::Unit => (w matches WireValue::Str(s) && s@ == vd.name@) || (
        w matches WireValue::Obj(o) && o@.len() == 1 && o@[0].0@ == vd.name@ && o@[0].1 is Null),
        VariantKind::Tuple(ts) => {
            if ts@.len() == 1 {
                w matches WireValue::Obj(o) && o@.len() == 1 && o@[0].0@ == vd.name@
            } else {
                &&& w matches WireValue::Obj(o)
                &&& o@.len() == 1
                &&& o@[0].0@ == vd.name@
                &&& o@[0].1 matches WireValue::Arr(a) && a@.len() == ts@.len()
            }
        },
        VariantKind::Struct(fs) => {
            &&& w matches WireValue::Obj(o)
            &&& o@.len() == 1
            &&& o@[0].0@ == vd.name@
            &&& o@[0].1 matches WireValue::Obj(inner) && inner@.len() == fs@.len() && (forall|
                j: int,
            | 0 <= j < fs@.len() ==> (#[trigger] inner@[j]).0@ == fs@[j].0@)
        },
    }
}

/// Whether a constructed instance conforms to variant `vd`: the tag is the
/// variant's name and the carried data has the variant's kind, arity and
/// field names.
pub open spec fn conforms(inst: VariantInstance, vd: VariantDef) -> bool {
    &&& inst.tag@ == vd.name@
    &&& match vd.kind {
        VariantKind::Unit => inst.data is Unit,
        VariantKind::Tuple(ts) => {
            if ts@.len() == 1 {
                inst.data is Single
            } else {
                inst.data matches InstData::Tuple(vs) && vs@.len() == ts@.len()
            }
        },
        VariantKind::Struct(fs) => inst.data matches InstData::Struct(ws) && ws@.len() == fs@.len()
            && forall|j: int| 0 <= j < fs@.len() ==> (#[trigger] ws@[j]).0@ == fs@[j].0@,
    }
}

/// Encodes one constructed instance under the externally tagged convention.
pub fn encode_variant(inst: VariantInstance) -> (w: WireValue)
    ensures
        encode_rel(inst, w),
{
    let VariantInstance { tag, data } = inst;
    match data {
        InstData::Unit => WireValue::Str(tag),
        InstData::Single(v) => {
            let mut o: Vec<(String, WireValue)> = Vec::new();
            o.push((tag, v));
            WireValue::Obj(o)
        },
        InstData::Tuple(vs) => {
            let mut o: Vec<(String, WireValue)> = Vec::new();
            o.push((tag, WireValue::Arr(vs)));
            WireValue::Obj(o)
        },
        InstData::Struct(fs) => {
            let mut o: Vec<(String, WireValue)> = Vec::new();
            o.push((tag, WireValue::Obj(fs)));
            WireValue::Obj(o)
        },
    }
}

/// Round trip through the wire encoding: a constructed instance that
/// conforms to a variant — of any of the four kinds — encodes to a wire
/// value that matches the shape the emitted declaration gives that
/// variant.
pub proof fn lemma_round_trip(inst: VariantInstance, vd: VariantDef, w: WireValue)
    requires
        conforms(inst, vd),
        encode_rel(inst, w),
    ensures
        decode_matches(w, vd),
{
}

/// Checks a wire value against the shape of variant `vd`, per
/// [`decode_matches`].
#[verifier::loop_isolation(false)]
pub fn wire_matches(w: &WireValue, vd: &VariantDef) -> (r: bool)
    ensures
        r == decode_matches(*w, *vd),
{
    match &vd.kind {
        VariantKind::Unit => {
            match w {
                WireValue::Str(s) => crate::attrs::str_eq(s.as_str(), vd.name.as_str()),
                WireValue::Obj(o) => {
                    if o.len() != 1 {
                        return false;
                    }
                    let key_ok = crate::attrs::str_eq(o[0].0.as_str(), vd.name.as_str());
                    let null_ok = matches!(&o[0].1, WireValue::Null);
                    key_ok && null_ok
                },
                _ => false,
            }
        },
        VariantKind::Tuple(ts) => {
            match w {
                WireValue::Obj(o) => {
                    if o.len() != 1 {
                        return false;
                    }
                    if !crate::attrs::str_eq(o[0].0.as_str(), vd.name.as_str()) {
                        return false;
                    }
                    if ts.len() == 1 {
                        true
                    } else {
                        match &o[0].1 {
                            WireValue::Arr(a) => a.len() == ts.len(),
                            _ => false,
                        }
                    }
                },
                _ => false,
            }
        },
        VariantKind::Struct(fs) => {
            match w {
                WireValue::Obj(o) => {
                    if o.len() != 1 {
                        return false;
                    }
                    if !crate::attrs::str_eq(o[0].0.as_str(), vd.name.as_str()) {
                        return false;
                    }
                    match &o[0].1 {
                        WireValue::Obj(inner) => {
                            if inner.len() != fs.len() {
                                return false;
                            }
                            let n = fs.len();
                            let mut j: usize = 0;
                            while j < n
                                invariant
                                    j <= n,
                                    n == fs@.len(),
                                    inner@.len() == n,
                                    forall|k: int| 0 <= k < j ==> (#[trigger] inner@[k]).0@
                                        == fs@[k].0@,
                                decreases n - j,
                            {
                                if !crate::attrs::str_eq(
                                    inner[j].0.as_str(), fs[j].0.as_str(),
                                ) {
                                    proof {
                                        assert((inner@[j as int]).0@ != fs@[j as int].0@);
                                        assert(!decode_matches(*w, *vd));
                                    }
                                    return false;
                                }
                                j = j + 1;
                            }
                            true
                        },
                        _ => false,
                    }
                },
                _ => false,
            }
        },
    }
}

} // verus!
