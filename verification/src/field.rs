//! Device source of one prime field: its constants, its type definition and
//! its arithmetic, specialized for a limb width and a field name.

use crate::limb::{limb_values, limbs_per_word, split_words, Limb};
use crate::templates::{Templates, TemplatesView};
use crate::text::{decimal, join, join_text, replace, replace_all, to_decimal};
use vstd::prelude::*;

verus! {

/// A prime field as the synthesizer reads it. The three big integers are
/// 64-bit words in little-endian order.
pub struct FieldParams {
    /// The modulus, in regular form.
    pub modulus: Vec<u64>,
    /// The square of the Montgomery radix modulo the modulus.
    pub r2: Vec<u64>,
    /// The number one in Montgomery form.
    pub one: Vec<u64>,
    /// The low-word inverse used by Montgomery multiplication.
    pub inv: u64,
    /// Device assembly of addition and subtraction for NVIDIA hardware,
    /// written for this field at the limb width in use. May be empty.
    pub nvidia_add_sub: String,
}

/// A field descriptor as plain values.
pub struct FieldParamsView {
    pub modulus: Seq<u64>,
    pub r2: Seq<u64>,
    pub one: Seq<u64>,
    pub inv: u64,
    pub nvidia_add_sub: Seq<char>,
}

impl View for FieldParams {
    type V = FieldParamsView;

    open spec fn view(&self) -> FieldParamsView {
        FieldParamsView {
            modulus: self.modulus@,
            r2: self.r2@,
            one: self.one@,
            inv: self.inv,
            nvidia_add_sub: self.nvidia_add_sub@,
        }
    }
}

impl FieldParams {
    /// The three integers of the field have one length in words, so that
    /// each constant of the field has as many limbs as the field's type, and
    /// their limb vectors can be held in memory.
    pub open spec fn wf(&self) -> bool {
        &&& self.modulus.len() == self.one.len()
        &&& self.r2.len() == self.one.len()
        &&& self.one.len() * 2 <= usize::MAX
    }

    /// Whether the descriptor is well formed.
    pub fn is_wf(&self) -> (ok: bool)
        ensures
            ok == self.wf(),
    {
        self.modulus.len() == self.one.len() && self.r2.len() == self.one.len() && self.one.len()
            <= usize::MAX / 2
    }
}

/// The numerals of `limbs`, in order.
pub open spec fn numerals(limbs: Seq<nat>) -> Seq<Seq<char>> {
    Seq::new(limbs.len(), |i: int| decimal(limbs[i]))
}

/// The line that defines the constant `name` as a field element with the
/// given limbs.
pub open spec fn define_field_text(name: Seq<char>, limbs: Seq<nat>) -> Seq<char> {
    "#define "@ + name + " ((FIELD){ { "@ + join_text(numerals(limbs), ", "@) + " } })"@
}

/// The nine lines of constants and type definition of a field, for limbs of
/// type `L`.
pub open spec fn params_text<L: Limb>(f: FieldParamsView) -> Seq<char> {
    let bits = L::spec_bits();
    let one = split_words(f.one, bits);
    join_text(
        seq![
            "#define FIELD_limb "@ + L::spec_opencl_type(),
            "#define FIELD_LIMBS "@ + decimal(one.len()),
            "#define FIELD_LIMB_BITS "@ + decimal(bits),
            define_field_text("FIELD_ONE"@, one),
            define_field_text("FIELD_P"@, split_words(f.modulus, bits)),
            define_field_text("FIELD_R2"@, split_words(f.r2, bits)),
            define_field_text("FIELD_ZERO"@, Seq::new(one.len(), |i: int| 0nat)),
            "#define FIELD_INV "@ + decimal(f.inv as nat),
            "typedef struct { FIELD_limb val[FIELD_LIMBS]; } FIELD;"@,
        ],
        "\n"@,
    )
}

/// The whole source of a field before it is named: the common header, the
/// constants, the NVIDIA block and the field arithmetic, one per line group.
pub open spec fn field_template<L: Limb>(t: TemplatesView, f: FieldParamsView) -> Seq<char> {
    join_text(seq![t.common, params_text::<L>(f), f.nvidia_add_sub, t.field], "\n"@)
}

/// The source of the field named `name`.
pub open spec fn field_text<L: Limb>(t: TemplatesView, f: FieldParamsView, name: Seq<char>) -> Seq<
    char,
> {
    replace_all(field_template::<L>(t, f), "FIELD"@, name)
}

/// Twice the word count bounds the limb count at either width.
proof fn lemma_limb_count_fits(len: nat, bits: nat)
    requires
        bits == 32 || bits == 64,
        len * 2 <= usize::MAX,
    ensures
        len * limbs_per_word(bits) <= usize::MAX,
{
    if bits == 32 {
        assert(limbs_per_word(bits) == 2);
    } else {
        assert(limbs_per_word(bits) == 1);
        assert(len * 1 == len);
    }
}

/// `prefix` followed by `rest`.
fn line(prefix: &str, rest: &str) -> (out: String)
    ensures
        out@ == prefix@ + rest@,
{
    let mut out = prefix.to_owned();
    out.append(rest);
    out
}

/// Writes the definition of the constant `name` with the given limbs.
pub fn define_field<L: Limb>(name: &str, limbs: &Vec<L>) -> (out: String)
    ensures
        out@ == define_field_text(name@, limb_values(limbs@)),
{
    let mut rendered: Vec<String> = Vec::new();
    let mut i: usize = 0;
    while i < limbs.len()
        invariant
            i <= limbs.len(),
            rendered.len() == i,
            forall|k: int| 0 <= k < i ==> (#[trigger] rendered@[k])@ == decimal(limbs@[k].spec_value()),
        decreases limbs.len() - i,
    {
        rendered.push(to_decimal(limbs[i].to_u64()));
        i += 1;
    }
    assert(rendered.deep_view() =~= numerals(limb_values(limbs@)));
    let list = join(&rendered, ", ");
    let mut out = line("#define ", name);
    out.append(" ((FIELD){ { ");
    out.append(list.as_str());
    out.append(" } })");
    out
}

/// Writes the constants and the type definition of the field `f` for limbs
/// of type `L`.
pub fn params<L: Limb>(f: &FieldParams) -> (out: String)
    requires
        f.wf(),
    ensures
        out@ == params_text::<L>(f@),
{
    proof {
        L::width_is_known();
        lemma_limb_count_fits(f.one.len() as nat, L::spec_bits());
        lemma_limb_count_fits(f.modulus.len() as nat, L::spec_bits());
        lemma_limb_count_fits(f.r2.len() as nat, L::spec_bits());
    }
    let one = L::limbs_of(&f.one);
    let p = L::limbs_of(&f.modulus);
    let r2 = L::limbs_of(&f.r2);
    let limbs = one.len();
    let mut zero: Vec<L> = Vec::new();
    let mut i: usize = 0;
    while i < limbs
        invariant
            i <= limbs,
            zero.len() == i,
            forall|k: int| 0 <= k < i ==> (#[trigger] zero@[k]).spec_value() == 0,
        decreases limbs - i,
    {
        zero.push(L::zero());
        i += 1;
    }
    proof {
        let bits = L::spec_bits();
        assert(limb_values(one@) =~= split_words(f@.one, bits));
        assert(limb_values(p@) =~= split_words(f@.modulus, bits));
        assert(limb_values(r2@) =~= split_words(f@.r2, bits));
        assert(limb_values(zero@) =~= Seq::new(split_words(f@.one, bits).len(), |i: int| 0nat));
    }
    let mut lines: Vec<String> = Vec::new();
    lines.push(line("#define FIELD_limb ", L::opencl_type()));
    lines.push(line("#define FIELD_LIMBS ", to_decimal(limbs as u64).as_str()));
    lines.push(line("#define FIELD_LIMB_BITS ", to_decimal(L::bits() as u64).as_str()));
    lines.push(define_field("FIELD_ONE", &one));
    lines.push(define_field("FIELD_P", &p));
    lines.push(define_field("FIELD_R2", &r2));
    lines.push(define_field("FIELD_ZERO", &zero));
    lines.push(line("#define FIELD_INV ", to_decimal(f.inv).as_str()));
    lines.push("typedef struct { FIELD_limb val[FIELD_LIMBS]; } FIELD;".to_owned());
    proof {
        let bits = L::spec_bits();
        let one_limbs = split_words(f@.one, bits);
        assert(lines.deep_view() =~= seq![
            "#define FIELD_limb "@ + L::spec_opencl_type(),
            "#define FIELD_LIMBS "@ + decimal(one_limbs.len()),
            "#define FIELD_LIMB_BITS "@ + decimal(bits),
            define_field_text("FIELD_ONE"@, one_limbs),
            define_field_text("FIELD_P"@, split_words(f@.modulus, bits)),
            define_field_text("FIELD_R2"@, split_words(f@.r2, bits)),
            define_field_text("FIELD_ZERO"@, Seq::new(one_limbs.len(), |i: int| 0nat)),
            "#define FIELD_INV "@ + decimal(f@.inv as nat),
            "typedef struct { FIELD_limb val[FIELD_LIMBS]; } FIELD;"@,
        ]);
    }
    join(&lines, "\n")
}

/// Writes the device source of the prime field `f` under the name `name`,
/// for limbs of type `L`: every bare word `FIELD` of the assembled text
/// becomes `name`.
pub fn field<L: Limb>(templates: &Templates, f: &FieldParams, name: &str) -> (out: String)
    requires
        f.wf(),
    ensures
        out@ == field_text::<L>(templates@, f@, name@),
{
    let mut parts: Vec<String> = Vec::new();
    parts.push(templates.common.clone());
    parts.push(params::<L>(f));
    parts.push(f.nvidia_add_sub.clone());
    parts.push(templates.field.clone());
    assert(parts.deep_view() =~= seq![
        templates@.common,
        params_text::<L>(f@),
        f@.nvidia_add_sub,
        templates@.field,
    ]);
    let whole = join(&parts, "\n");
    replace(whole.as_str(), "FIELD", name)
}

} // verus!
