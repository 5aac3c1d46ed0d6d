//! Assembly of whole device programs. Device code has no generic types, so
//! one program is written out for each field and curve by filling the
//! templates with the names and constants of that curve.

use crate::curve::{
    group_index, index_of_group, lemma_group_in_its_family, CurveFamily, CurveGroup,
};
use crate::field::{define_field, define_field_text, field, field_text, FieldParams, FieldParamsView};
use crate::limb::{limb_values, limbs_per_word, split_words, Limb, Limb32, Limb64};
use crate::templates::{Templates, TemplatesView};
use crate::text::{
    clean, join, join_sections, join_text, lemma_pattern_stays_out, lemma_prefix_stays_out, occurs,
    replace, replace_all,
};
use std::collections::HashMap;
use vstd::prelude::*;

verus! {

/// A curve family as the synthesizer reads it: its two prime fields and,
/// where the family has a quadratic extension, the extension's non-residue
/// as an element of the base field, in 64-bit little-endian words.
pub struct CurveParams {
    pub family: CurveFamily,
    /// The scalar field, emitted under the name `Fr`.
    pub fr: FieldParams,
    /// The base field, emitted under the name `Fq`.
    pub fq: FieldParams,
    /// The non-residue of `Fq2`. Not read for a family without `Fq2`.
    pub fq2_nonresidue: Vec<u64>,
}

/// A curve descriptor as plain values.
pub struct CurveParamsView {
    pub family: CurveFamily,
    pub fr: FieldParamsView,
    pub fq: FieldParamsView,
    pub fq2_nonresidue: Seq<u64>,
}

impl View for CurveParams {
    type V = CurveParamsView;

    open spec fn view(&self) -> CurveParamsView {
        CurveParamsView {
            family: self.family,
            fr: self.fr@,
            fq: self.fq@,
            fq2_nonresidue: self.fq2_nonresidue@,
        }
    }
}

impl CurveParams {
    /// Both fields are well formed, and where the family has a quadratic
    /// extension its non-residue is as long as an element of the base
    /// field.
    pub open spec fn wf(&self) -> bool {
        &&& self.fr.wf()
        &&& self.fq.wf()
        &&& self.fq2_nonresidue.len() * 2 <= usize::MAX
        &&& self.family.spec_has_fp2() ==> self.fq2_nonresidue.len() == self.fq.one.len()
    }

    /// Whether the descriptor is well formed.
    pub fn is_wf(&self) -> (ok: bool)
        ensures
            ok == self.wf(),
    {
        self.fr.is_wf() && self.fq.is_wf() && self.fq2_nonresidue.len() <= usize::MAX / 2 && (
        !self.family.has_fp2() || self.fq2_nonresidue.len() == self.fq.one.len())
    }
}

/// The symbol prefixes of the groups of one family, each under the index of
/// its group. The host keeps the map to pick the kernel symbol of a group
/// when it dispatches.
pub struct PrefixMap {
    family: CurveFamily,
    prefixes: HashMap<u64, String>,
}

/// The prefix map of a family: each of its groups, and no other group, with
/// the group's symbol prefix.
pub open spec fn prefix_map_of(family: CurveFamily) -> Map<CurveGroup, Seq<char>> {
    Map::new(|g: CurveGroup| g.spec_family() == family, |g: CurveGroup| g.prefix_text())
}

impl View for PrefixMap {
    type V = Map<CurveGroup, Seq<char>>;

    closed spec fn view(&self) -> Map<CurveGroup, Seq<char>> {
        prefix_map_of(self.family)
    }
}

/// The prefixes held are those of the first `upto` groups of `groups`,
/// each under the index of its group.
spec fn holds_prefixes(prefixes: Map<u64, String>, groups: Seq<CurveGroup>, upto: int) -> bool {
    &&& prefixes.dom().finite()
    &&& prefixes.dom().len() == upto
    &&& forall|i: int|
        0 <= i < upto ==> prefixes.contains_key(group_index(#[trigger] groups[i]) as u64)
            && prefixes[group_index(groups[i]) as u64]@ == groups[i].prefix_text()
    &&& forall|k: u64|
        prefixes.contains_key(k) ==> exists|i: int|
            0 <= i < upto && group_index(#[trigger] groups[i]) == k
}

impl PrefixMap {
    /// The map holds the prefix of each group of the family, and nothing
    /// else.
    #[verifier::type_invariant]
    spec fn listed(self) -> bool {
        holds_prefixes(
            self.prefixes@,
            self.family.spec_groups(),
            self.family.spec_groups().len() as int,
        )
    }

    /// The number of groups in the map.
    pub fn len(&self) -> (n: usize)
        ensures
            n == self@.dom().len(),
            self@.dom().finite(),
    {
        proof {
            use_type_invariant(self);
            lemma_family_domain(self.family);
        }
        self.prefixes.len()
    }

    /// The prefix of `group`, if the map holds the group.
    pub fn get(&self, group: CurveGroup) -> (prefix: Option<&String>)
        ensures
            prefix is Some <==> self@.contains_key(group),
            prefix matches Some(p) ==> p@ == self@[group],
    {
        proof {
            use_type_invariant(self);
            lemma_group_in_its_family(group);
            if self.prefixes@.contains_key(group_index(group) as u64) {
                let i = choose|i: int|
                    0 <= i < self.family.spec_groups().len() && group_index(
                        #[trigger] self.family.spec_groups()[i],
                    ) == group_index(group);
                assert(self.family.spec_groups()[i] == group);
            }
            if group.spec_family() == self.family {
                let i = choose|i: int|
                    0 <= i < self.family.spec_groups().len() && self.family.spec_groups()[i]
                        == group;
                assert(self.prefixes@.contains_key(
                    group_index(self.family.spec_groups()[i]) as u64,
                ));
            }
        }
        let index = index_of_group(group);
        self.prefixes.get(&index)
    }

    /// The name of the kernel `kernel` of `group` on the device: the
    /// group's prefix followed by `kernel`.
    pub fn kernel_name(&self, group: CurveGroup, kernel: &str) -> (name: String)
        requires
            self@.contains_key(group),
        ensures
            name@ == self@[group] + kernel@,
    {
        let mut name = self.get(group).unwrap().clone();
        name.append(kernel);
        name
    }
}

/// The groups that a family's prefix map holds are those that the family
/// lists.
proof fn lemma_family_domain(family: CurveFamily)
    ensures
        prefix_map_of(family).dom().finite(),
        prefix_map_of(family).dom().len() == family.spec_groups().len(),
{
    let dom = prefix_map_of(family).dom();
    let groups = family.spec_groups();
    assert(dom =~= groups.to_set()) by {
        assert forall|g: CurveGroup| dom.contains(g) implies groups.to_set().contains(g) by {
            lemma_group_in_its_family(g);
        }
        assert forall|g: CurveGroup| groups.to_set().contains(g) implies dom.contains(g) by {
            let i = choose|i: int| 0 <= i < groups.len() && groups[i] == g;
            assert(groups[i].spec_family() == family);
        }
    }
    assert(groups.no_duplicates()) by {
        assert(forall|i: int, j: int|
            0 <= i < groups.len() && 0 <= j < groups.len() && i != j ==> groups[i] != groups[j]);
    }
    groups.unique_seq_to_set();
}

/// The workload whose kernel follows each group's curve arithmetic.
#[derive(Clone, Copy, Debug, PartialEq, Eq, Structural)]
pub enum Workload {
    Multiexp,
    PolycommitRoundReduce,
}

/// The definition of the non-residue of the extension `field2` over `field`.
pub open spec fn params2_text<L: Limb>(nonresidue: Seq<u64>, field2: Seq<char>, field: Seq<char>) -> Seq<
    char,
> {
    replace_all(
        replace_all(
            define_field_text("FIELD_NONRESIDUE"@, split_words(nonresidue, L::spec_bits())),
            "FIELD2"@,
            field2,
        ),
        "FIELD"@,
        field,
    )
}

/// The arithmetic of the extension `field2` over `field`.
pub open spec fn field2_text(t: TemplatesView, field2: Seq<char>, field: Seq<char>) -> Seq<char> {
    replace_all(replace_all(t.field2, "FIELD2"@, field2), "FIELD"@, field)
}

/// The FFT kernel over `field`.
pub open spec fn fft_text(t: TemplatesView, field: Seq<char>) -> Seq<char> {
    replace_all(t.fft, "FIELD"@, field)
}

/// The arithmetic of the curve group `point` with coordinates in `field` and
/// scalars in `exp`.
pub open spec fn ec_text(t: TemplatesView, field: Seq<char>, point: Seq<char>, exp: Seq<char>) -> Seq<
    char,
> {
    replace_all(replace_all(replace_all(t.ec, "FIELD"@, field), "POINT"@, point), "EXPONENT"@, exp)
}

/// The multi-scalar multiplication kernel of the group `point`.
pub open spec fn multiexp_text(t: TemplatesView, point: Seq<char>, exp: Seq<char>) -> Seq<char> {
    replace_all(replace_all(t.multiexp, "POINT"@, point), "EXPONENT"@, exp)
}

/// The polynomial-commitment round kernel of the group `point`.
pub open spec fn polycommit_round_reduce_text(
    t: TemplatesView,
    point: Seq<char>,
    exp: Seq<char>,
) -> Seq<char> {
    replace_all(replace_all(t.polycommit_round_reduce, "POINT"@, point), "EXPONENT"@, exp)
}

/// The workload kernel of the group `point`.
pub open spec fn workload_text(t: TemplatesView, workload: Workload, point: Seq<char>, exp: Seq<char>) -> Seq<
    char,
> {
    match workload {
        Workload::Multiexp => multiexp_text(t, point, exp),
        Workload::PolycommitRoundReduce => polycommit_round_reduce_text(t, point, exp),
    }
}

/// The source of a field at the chosen limb width.
pub open spec fn field_text_at(limb64: bool, t: TemplatesView, f: FieldParamsView, name: Seq<char>) -> Seq<
    char,
> {
    if limb64 {
        field_text::<Limb64>(t, f, name)
    } else {
        field_text::<Limb32>(t, f, name)
    }
}

/// The sections that come before the groups: the two prime fields and,
/// where the family has one, the quadratic extension.
pub open spec fn prelude_sections(t: TemplatesView, c: CurveParamsView, limb64: bool) -> Seq<Seq<char>> {
    let fields = seq![field_text_at(limb64, t, c.fr, "Fr"@), field_text_at(limb64, t, c.fq, "Fq"@)];
    if c.family.spec_has_fp2() {
        fields + seq![
            if limb64 {
                params2_text::<Limb64>(c.fq2_nonresidue, "Fq2"@, "Fq"@)
            } else {
                params2_text::<Limb32>(c.fq2_nonresidue, "Fq2"@, "Fq"@)
            },
            field2_text(t, "Fq2"@, "Fq"@),
        ]
    } else {
        fields
    }
}

/// For each group in turn, its curve arithmetic and then its workload kernel.
pub open spec fn group_sections(t: TemplatesView, workload: Workload, groups: Seq<CurveGroup>) -> Seq<
    Seq<char>,
>
    decreases groups.len(),
{
    if groups.len() == 0 {
        Seq::empty()
    } else {
        let g = groups.last();
        group_sections(t, workload, groups.drop_last()) + seq![
            ec_text(t, g.base_text(), g.point_text(), g.scalar_text()),
            workload_text(t, workload, g.point_text(), g.scalar_text()),
        ]
    }
}

/// The device program of a curve workload: the prelude and the sections of
/// every group of the family, a blank line between each two sections.
pub open spec fn curve_source(t: TemplatesView, c: CurveParamsView, workload: Workload, limb64: bool) -> Seq<
    char,
> {
    join_text(
        prelude_sections(t, c, limb64) + group_sections(t, workload, c.family.spec_groups()),
        "\n\n"@,
    )
}

/// The device program of the FFT over the field `f`.
pub open spec fn fft_source(t: TemplatesView, f: FieldParamsView, limb64: bool) -> Seq<char> {
    join_text(seq![field_text_at(limb64, t, f, "Fr"@), fft_text(t, "Fr"@)], "\n\n"@)
}

/// The names that the recipes fill in are shorter than every placeholder,
/// so none of them holds a placeholder.
pub proof fn lemma_names_hold_no_placeholder(group: CurveGroup)
    ensures
        forall|name: Seq<char>, placeholder: Seq<char>|
            (name == group.base_text() || name == group.point_text() || name == group.scalar_text()
                || name == "Fr"@ || name == "Fq"@ || name == "Fq2"@) && (placeholder == "FIELD"@
                || placeholder == "FIELD2"@ || placeholder == "POINT"@ || placeholder
                == "EXPONENT"@) ==> !occurs(placeholder, name),
{
    reveal_strlit("G");
    reveal_strlit("G1");
    reveal_strlit("G2");
    reveal_strlit("Dee");
    reveal_strlit("Dum");
    reveal_strlit("Fr");
    reveal_strlit("Fq");
    reveal_strlit("Fq2");
    reveal_strlit("FIELD");
    reveal_strlit("FIELD2");
    reveal_strlit("POINT");
    reveal_strlit("EXPONENT");
    assert forall|name: Seq<char>, placeholder: Seq<char>|
        (name == group.base_text() || name == group.point_text() || name == group.scalar_text()
            || name == "Fr"@ || name == "Fq"@ || name == "Fq2"@) && (placeholder == "FIELD"@
            || placeholder == "FIELD2"@ || placeholder == "POINT"@ || placeholder
            == "EXPONENT"@) implies !occurs(placeholder, name) by {
        assert(name.len() <= 3);
        assert(placeholder.len() >= 5);
    }
}

/// None of the names that the recipes write can complete a placeholder
/// that is filled in before it or together with it: the names of the fields
/// and of the pairing groups for `FIELD`, every name of a group or of a
/// scalar field for `POINT`, and the names of the scalar fields for
/// `EXPONENT`.
pub proof fn lemma_recipe_names_are_clean()
    ensures
        clean("FIELD"@, "Fr"@),
        clean("FIELD"@, "Fq"@),
        clean("FIELD"@, "Fq2"@),
        clean("FIELD"@, "G"@),
        clean("FIELD"@, "G1"@),
        clean("FIELD"@, "G2"@),
        clean("POINT"@, "G"@),
        clean("POINT"@, "G1"@),
        clean("POINT"@, "G2"@),
        clean("POINT"@, "Dee"@),
        clean("POINT"@, "Dum"@),
        clean("POINT"@, "Fr"@),
        clean("POINT"@, "Fq"@),
        clean("EXPONENT"@, "Fr"@),
        clean("EXPONENT"@, "Fq"@),
        "FIELD2"@.take(5) == "FIELD"@,
{
    reveal_strlit("G");
    reveal_strlit("G1");
    reveal_strlit("G2");
    reveal_strlit("Dee");
    reveal_strlit("Dum");
    reveal_strlit("Fr");
    reveal_strlit("Fq");
    reveal_strlit("Fq2");
    reveal_strlit("FIELD");
    reveal_strlit("FIELD2");
    reveal_strlit("POINT");
    reveal_strlit("EXPONENT");
    assert("FIELD"@ =~= seq!['F', 'I', 'E', 'L', 'D']);
    assert("POINT"@ =~= seq!['P', 'O', 'I', 'N', 'T']);
    assert("EXPONENT"@ =~= seq!['E', 'X', 'P', 'O', 'N', 'E', 'N', 'T']);
    assert("FIELD2"@.take(5) =~= "FIELD"@);
}

/// The source of a field holds no `FIELD` where the field's name cannot
/// complete one.
pub proof fn lemma_field_holds_no_placeholder<L: Limb>(
    t: TemplatesView,
    f: FieldParamsView,
    name: Seq<char>,
)
    requires
        clean("FIELD"@, name),
    ensures
        !occurs("FIELD"@, field_text::<L>(t, f, name)),
        !occurs("FIELD2"@, field_text::<L>(t, f, name)),
{
    lemma_recipe_names_are_clean();
    reveal_strlit("FIELD");
    reveal_strlit("FIELD2");
    lemma_pattern_stays_out(crate::field::field_template::<L>(t, f), "FIELD"@, name, "FIELD"@);
    lemma_prefix_stays_out(field_text::<L>(t, f, name), "FIELD"@, "FIELD2"@);
}

/// The sections that the recipes write from the field templates hold no
/// `FIELD` and no `FIELD2`: the two prime fields, the extension with its
/// non-residue, and the FFT kernel.
pub proof fn lemma_field_sections_hold_no_placeholder(
    t: TemplatesView,
    f: FieldParamsView,
    nonresidue: Seq<u64>,
    limb64: bool,
)
    ensures
        !occurs("FIELD"@, field_text_at(limb64, t, f, "Fr"@)),
        !occurs("FIELD"@, field_text_at(limb64, t, f, "Fq"@)),
        !occurs("FIELD"@, fft_text(t, "Fr"@)),
        !occurs("FIELD"@, field2_text(t, "Fq2"@, "Fq"@)),
        !occurs("FIELD2"@, field2_text(t, "Fq2"@, "Fq"@)),
        !occurs("FIELD"@, params2_text::<Limb64>(nonresidue, "Fq2"@, "Fq"@)),
        !occurs("FIELD"@, params2_text::<Limb32>(nonresidue, "Fq2"@, "Fq"@)),
{
    lemma_recipe_names_are_clean();
    reveal_strlit("FIELD");
    reveal_strlit("FIELD2");
    lemma_field_holds_no_placeholder::<Limb64>(t, f, "Fr"@);
    lemma_field_holds_no_placeholder::<Limb32>(t, f, "Fr"@);
    lemma_field_holds_no_placeholder::<Limb64>(t, f, "Fq"@);
    lemma_field_holds_no_placeholder::<Limb32>(t, f, "Fq"@);
    lemma_pattern_stays_out(t.fft, "FIELD"@, "Fr"@, "FIELD"@);
    lemma_pattern_stays_out(replace_all(t.field2, "FIELD2"@, "Fq2"@), "FIELD"@, "Fq"@, "FIELD"@);
    lemma_prefix_stays_out(field2_text(t, "Fq2"@, "Fq"@), "FIELD"@, "FIELD2"@);
    lemma_pattern_stays_out(
        replace_all(
            define_field_text("FIELD_NONRESIDUE"@, split_words(nonresidue, 64)),
            "FIELD2"@,
            "Fq2"@,
        ),
        "FIELD"@,
        "Fq"@,
        "FIELD"@,
    );
    lemma_pattern_stays_out(
        replace_all(
            define_field_text("FIELD_NONRESIDUE"@, split_words(nonresidue, 32)),
            "FIELD2"@,
            "Fq2"@,
        ),
        "FIELD"@,
        "Fq"@,
        "FIELD"@,
    );
}

/// The sections of a group hold none of the placeholders that the recipe
/// fills in: the workload kernel no `POINT` and no `EXPONENT`, and the
/// curve arithmetic neither of them and no `FIELD`. The last holds for the
/// groups named `G`, `G1` and `G2`; the names `Dee` and `Dum` begin with
/// the letter on which `FIELD` ends.
pub proof fn lemma_group_sections_hold_no_placeholder(
    t: TemplatesView,
    workload: Workload,
    group: CurveGroup,
)
    ensures
        !occurs(
            "EXPONENT"@,
            ec_text(t, group.base_text(), group.point_text(), group.scalar_text()),
        ),
        !occurs("POINT"@, ec_text(t, group.base_text(), group.point_text(), group.scalar_text())),
        group.spec_family() != CurveFamily::Tweedle ==> !occurs(
            "FIELD"@,
            ec_text(t, group.base_text(), group.point_text(), group.scalar_text()),
        ),
        !occurs(
            "EXPONENT"@,
            workload_text(t, workload, group.point_text(), group.scalar_text()),
        ),
        !occurs("POINT"@, workload_text(t, workload, group.point_text(), group.scalar_text())),
{
    lemma_recipe_names_are_clean();
    reveal_strlit("FIELD");
    reveal_strlit("POINT");
    reveal_strlit("EXPONENT");
    let base = group.base_text();
    let point = group.point_text();
    let scalar = group.scalar_text();
    let with_field = replace_all(t.ec, "FIELD"@, base);
    let with_point = replace_all(with_field, "POINT"@, point);
    lemma_pattern_stays_out(with_point, "EXPONENT"@, scalar, "EXPONENT"@);
    lemma_pattern_stays_out(with_field, "POINT"@, point, "POINT"@);
    lemma_pattern_stays_out(with_point, "EXPONENT"@, scalar, "POINT"@);
    if group.spec_family() != CurveFamily::Tweedle {
        lemma_pattern_stays_out(t.ec, "FIELD"@, base, "FIELD"@);
        lemma_pattern_stays_out(with_field, "POINT"@, point, "FIELD"@);
        lemma_pattern_stays_out(with_point, "EXPONENT"@, scalar, "FIELD"@);
    }
    let template = match workload {
        Workload::Multiexp => t.multiexp,
        Workload::PolycommitRoundReduce => t.polycommit_round_reduce,
    };
    let named = replace_all(template, "POINT"@, point);
    lemma_pattern_stays_out(template, "POINT"@, point, "POINT"@);
    lemma_pattern_stays_out(named, "EXPONENT"@, scalar, "POINT"@);
    lemma_pattern_stays_out(named, "EXPONENT"@, scalar, "EXPONENT"@);
}

/// The program of a workload is a function of the templates, the curve and
/// the limb width alone: whenever it is written again for the same ones, it
/// is the same text, character for character.
pub proof fn lemma_source_is_determined(
    t: TemplatesView,
    c: CurveParamsView,
    workload: Workload,
    limb64: bool,
    first: Seq<char>,
    second: Seq<char>,
)
    requires
        first == curve_source(t, c, workload, limb64),
        second == curve_source(t, c, workload, limb64),
    ensures
        first == second,
{
}

/// Writes the definition of the non-residue of `extension` over `base`.
pub fn params2<L: Limb>(nonresidue: &Vec<u64>, extension: &str, base: &str) -> (out: String)
    requires
        nonresidue.len() * 2 <= usize::MAX,
    ensures
        out@ == params2_text::<L>(nonresidue@, extension@, base@),
{
    proof {
        L::width_is_known();
        if L::spec_bits() == 32 {
            assert(limbs_per_word(L::spec_bits()) == 2);
        } else {
            assert(limbs_per_word(L::spec_bits()) == 1);
            assert(nonresidue.len() * 1 == nonresidue.len());
        }
    }
    let limbs = L::limbs_of(nonresidue);
    assert(limb_values(limbs@) =~= split_words(nonresidue@, L::spec_bits()));
    let mut lines: Vec<String> = Vec::new();
    lines.push(define_field("FIELD_NONRESIDUE", &limbs));
    assert(lines.deep_view() =~= seq![
        define_field_text("FIELD_NONRESIDUE"@, split_words(nonresidue@, L::spec_bits())),
    ]);
    let defs = join(&lines, "\n");
    let named = replace(defs.as_str(), "FIELD2", extension);
    replace(named.as_str(), "FIELD", base)
}

/// Writes the arithmetic of the field `extension` over `base`.
pub fn field2(templates: &Templates, extension: &str, base: &str) -> (out: String)
    ensures
        out@ == field2_text(templates@, extension@, base@),
{
    let named = replace(templates.field2.as_str(), "FIELD2", extension);
    replace(named.as_str(), "FIELD", base)
}

/// Writes the FFT kernel over the field `base`.
pub fn fft(templates: &Templates, base: &str) -> (out: String)
    ensures
        out@ == fft_text(templates@, base@),
{
    replace(templates.fft.as_str(), "FIELD", base)
}

/// Writes the polynomial-commitment round kernel of the group `point`.
pub fn polycommit_round_reduce(templates: &Templates, point: &str, exp: &str) -> (out: String)
    ensures
        out@ == polycommit_round_reduce_text(templates@, point@, exp@),
{
    let named = replace(templates.polycommit_round_reduce.as_str(), "POINT", point);
    replace(named.as_str(), "EXPONENT", exp)
}

/// Writes the arithmetic of the curve group `point`.
pub fn ec(templates: &Templates, base: &str, point: &str, exp: &str) -> (out: String)
    ensures
        out@ == ec_text(templates@, base@, point@, exp@),
{
    let with_field = replace(templates.ec.as_str(), "FIELD", base);
    let with_point = replace(with_field.as_str(), "POINT", point);
    replace(with_point.as_str(), "EXPONENT", exp)
}

/// Writes the multi-scalar multiplication kernel of the group `point`.
pub fn multiexp(templates: &Templates, point: &str, exp: &str) -> (out: String)
    ensures
        out@ == multiexp_text(templates@, point@, exp@),
{
    let named = replace(templates.multiexp.as_str(), "POINT", point);
    replace(named.as_str(), "EXPONENT", exp)
}

/// Builds the prefix map of the family of `group`.
pub fn get_prefix_map(group: CurveGroup) -> (map: PrefixMap)
    ensures
        map@ == prefix_map_of(group.spec_family()),
        map@.contains_key(group),
{
    let family = group.family();
    let groups = family.groups();
    let mut prefixes: HashMap<u64, String> = HashMap::new();
    let mut i: usize = 0;
    proof {
        lemma_group_in_its_family(group);
    }
    while i < groups.len()
        invariant
            i <= groups.len(),
            groups@ == family.spec_groups(),
            forall|a: int, b: int|
                #![trigger groups@[a], groups@[b]]
                0 <= a < b < groups@.len() ==> groups@[a] != groups@[b],
            holds_prefixes(prefixes@, groups@, i as int),
        decreases groups.len() - i,
    {
        let g = groups[i];
        let ghost before = prefixes@;
        proof {
            if before.contains_key(group_index(g) as u64) {
                let j = choose|j: int|
                    0 <= j < i && group_index(#[trigger] groups@[j]) == group_index(g);
                assert(groups@[j] == groups@[i as int]);
            }
        }
        prefixes.insert(index_of_group(g), g.prefix().to_owned());
        proof {
            assert forall|k: u64| prefixes@.contains_key(k) implies exists|j: int|
                0 <= j < i + 1 && group_index(#[trigger] groups@[j]) == k by {
                if before.contains_key(k) {
                    let j = choose|j: int| 0 <= j < i && group_index(#[trigger] groups@[j]) == k;
                    assert(group_index(groups@[j]) == k);
                } else {
                    assert(group_index(groups@[i as int]) == k);
                }
            }
        }
        i += 1;
    }
    PrefixMap { family, prefixes }
}

/// Writes the source of the field `f` under `name` at the chosen limb width.
fn field_at(limb64: bool, templates: &Templates, f: &FieldParams, name: &str) -> (out: String)
    requires
        f.wf(),
    ensures
        out@ == field_text_at(limb64, templates@, f@, name@),
{
    if limb64 {
        field::<Limb64>(templates, f, name)
    } else {
        field::<Limb32>(templates, f, name)
    }
}

/// Writes the device program of the FFT over the field `f`, which the
/// program names `Fr`.
pub fn kernel_fft(templates: &Templates, f: &FieldParams, limb64: bool) -> (out: String)
    requires
        f.wf(),
    ensures
        out@ == fft_source(templates@, f@, limb64),
{
    let mut sections: Vec<String> = Vec::new();
    sections.push(field_at(limb64, templates, f, "Fr"));
    sections.push(fft(templates, "Fr"));
    assert(sections.deep_view() =~= seq![
        field_text_at(limb64, templates@, f@, "Fr"@),
        fft_text(templates@, "Fr"@),
    ]);
    join_sections(&sections, "\n\n")
}

/// Writes the device program of `workload` for every group of the curve's
/// family.
fn kernel_of(templates: &Templates, curve: &CurveParams, workload: Workload, limb64: bool) -> (out: String)
    requires
        curve.wf(),
    ensures
        out@ == curve_source(templates@, curve@, workload, limb64),
{
    let mut sections: Vec<String> = Vec::new();
    sections.push(field_at(limb64, templates, &curve.fr, "Fr"));
    sections.push(field_at(limb64, templates, &curve.fq, "Fq"));
    if curve.family.has_fp2() {
        if limb64 {
            sections.push(params2::<Limb64>(&curve.fq2_nonresidue, "Fq2", "Fq"));
        } else {
            sections.push(params2::<Limb32>(&curve.fq2_nonresidue, "Fq2", "Fq"));
        }
        sections.push(field2(templates, "Fq2", "Fq"));
    }
    assert(sections.deep_view() =~= prelude_sections(templates@, curve@, limb64));
    let groups = curve.family.groups();
    let mut i: usize = 0;
    assert(groups@.take(0) =~= Seq::<CurveGroup>::empty());
    while i < groups.len()
        invariant
            i <= groups.len(),
            groups@ == curve@.family.spec_groups(),
            sections.deep_view() == prelude_sections(templates@, curve@, limb64) + group_sections(
                templates@,
                workload,
                groups@.take(i as int),
            ),
        decreases groups.len() - i,
    {
        let g = groups[i];
        let ghost before = sections.deep_view();
        sections.push(ec(templates, g.base_field_name(), g.point_name(), g.scalar_field_name()));
        match workload {
            Workload::Multiexp => {
                sections.push(multiexp(templates, g.point_name(), g.scalar_field_name()));
            },
            Workload::PolycommitRoundReduce => {
                sections.push(
                    polycommit_round_reduce(templates, g.point_name(), g.scalar_field_name()),
                );
            },
        }
        proof {
            let next = groups@.take(i + 1);
            assert(next.drop_last() =~= groups@.take(i as int));
            assert(next.last() == g);
            assert(sections.deep_view() =~= before + seq![
                ec_text(templates@, g.base_text(), g.point_text(), g.scalar_text()),
                workload_text(templates@, workload, g.point_text(), g.scalar_text()),
            ]);
            assert(sections.deep_view() =~= prelude_sections(templates@, curve@, limb64)
                + group_sections(templates@, workload, next));
        }
        i += 1;
    }
    assert(groups@.take(groups.len() as int) =~= groups@);
    join_sections(&sections, "\n\n")
}

/// Writes the device program of multi-scalar multiplication for the curve's
/// family: both fields, the extension where there is one, and for each group
/// its curve arithmetic and its kernel.
pub fn kernel_multiexp(templates: &Templates, curve: &CurveParams, limb64: bool) -> (out: String)
    requires
        curve.wf(),
    ensures
        out@ == curve_source(templates@, curve@, Workload::Multiexp, limb64),
{
    kernel_of(templates, curve, Workload::Multiexp, limb64)
}

/// Writes the device program of the polynomial-commitment round reduction
/// for the curve's family.
pub fn kernel_polycommit(templates: &Templates, curve: &CurveParams, limb64: bool) -> (out: String)
    requires
        curve.wf(),
    ensures
        out@ == curve_source(templates@, curve@, Workload::PolycommitRoundReduce, limb64),
{
    kernel_of(templates, curve, Workload::PolycommitRoundReduce, limb64)
}

} // verus!
