use algebra_kernels::curve::{CurveFamily, CurveGroup};
use algebra_kernels::field::{field, FieldParams};
use algebra_kernels::limb::{Limb32, Limb64};
use algebra_kernels::sources::{
    ec, fft, field2, get_prefix_map, kernel_fft, kernel_multiexp, kernel_polycommit, multiexp, params2,
    polycommit_round_reduce, CurveParams,
};
use algebra_kernels::templates::Templates;

fn templates() -> Templates {
    Templates {
        common: "// common".to_string(),
        field: "FIELD FIELD_mul(FIELD a, FIELD b);".to_string(),
        field2: "FIELD2 FIELD2_mul(FIELD2 a, FIELD b) { return FIELD_NONRESIDUE; }".to_string(),
        ec: "POINT_projective POINT_add(FIELD x, EXPONENT e);".to_string(),
        fft: "__kernel void radix_fft(__global FIELD* x);".to_string(),
        multiexp: "__kernel void POINT_bellman_multiexp(__global EXPONENT* exps);".to_string(),
        polycommit_round_reduce: "__kernel void POINT_polycommit_round_reduce(__global EXPONENT* c);"
            .to_string(),
    }
}

fn prime_field(seed: u64) -> FieldParams {
    FieldParams {
        modulus: vec![seed, seed + 1],
        r2: vec![seed + 2, seed + 3],
        one: vec![seed + 4, seed + 5],
        inv: seed + 6,
        nvidia_add_sub: String::new(),
    }
}

fn curve(family: CurveFamily) -> CurveParams {
    CurveParams { family, fr: prime_field(100), fq: prime_field(200), fq2_nonresidue: vec![300, 301] }
}

#[test]
fn params2_defines_the_nonresidue_over_the_base_field() {
    assert_eq!(
        params2::<Limb64>(&vec![3, 4], "Fq2", "Fq"),
        "#define Fq_NONRESIDUE ((Fq){ { 3, 4 } })"
    );
    assert_eq!(
        params2::<Limb32>(&vec![0x0000_0002_0000_0001], "Fq2", "Fq"),
        "#define Fq_NONRESIDUE ((Fq){ { 1, 2 } })"
    );
}

#[test]
fn extension_is_named_before_the_base_field() {
    assert_eq!(
        field2(&templates(), "Ext", "Base"),
        "Ext Ext_mul(Ext a, Base b) { return Base_NONRESIDUE; }"
    );
    assert_eq!(
        field2(&templates(), "Fq2", "Fq"),
        "Fq2 Fq2_mul(Fq2 a, Fq b) { return Fq_NONRESIDUE; }"
    );
}

#[test]
fn templates_are_specialized_by_name() {
    let t = templates();
    assert_eq!(fft(&t, "Fr"), "__kernel void radix_fft(__global Fr* x);");
    assert_eq!(ec(&t, "Fq2", "G2", "Fr"), "G2_projective G2_add(Fq2 x, Fr e);");
    assert_eq!(multiexp(&t, "G1", "Fr"), "__kernel void G1_bellman_multiexp(__global Fr* exps);");
    assert_eq!(
        polycommit_round_reduce(&t, "Dum", "Fq"),
        "__kernel void Dum_polycommit_round_reduce(__global Fq* c);"
    );
}

#[test]
fn fft_program_is_the_field_then_the_kernel() {
    let t = templates();
    let f = prime_field(1);
    let expected = format!("{}\n\n{}", field::<Limb64>(&t, &f, "Fr"), fft(&t, "Fr"));
    assert_eq!(kernel_fft(&t, &f, true), expected);
    let narrow = format!("{}\n\n{}", field::<Limb32>(&t, &f, "Fr"), fft(&t, "Fr"));
    assert_eq!(kernel_fft(&t, &f, false), narrow);
    assert_ne!(kernel_fft(&t, &f, true), kernel_fft(&t, &f, false));
}

#[test]
fn multiexp_program_of_a_pairing_family() {
    let t = templates();
    let c = curve(CurveFamily::Bls12381);
    let expected = [
        field::<Limb64>(&t, &c.fr, "Fr"),
        field::<Limb64>(&t, &c.fq, "Fq"),
        params2::<Limb64>(&c.fq2_nonresidue, "Fq2", "Fq"),
        field2(&t, "Fq2", "Fq"),
        ec(&t, "Fq", "G1", "Fr"),
        multiexp(&t, "G1", "Fr"),
        ec(&t, "Fq2", "G2", "Fr"),
        multiexp(&t, "G2", "Fr"),
    ]
    .join("\n\n");
    assert_eq!(kernel_multiexp(&t, &c, true), expected);
}

#[test]
fn source_specialization_for_bls12_381() {
    let src = kernel_multiexp(&templates(), &curve(CurveFamily::Bls12381), true);
    assert!(src.contains("G1_bellman_multiexp"));
    assert!(src.contains("G2_bellman_multiexp"));
    assert!(!src.contains("G_bellman_multiexp"));
    assert!(!src.contains("POINT"));
    assert!(!src.contains("EXPONENT"));
    assert!(!src.contains("FIELD"));
}

#[test]
fn multiexp_program_of_bn_382_has_three_groups() {
    let t = templates();
    let c = curve(CurveFamily::Bn382);
    let expected = [
        field::<Limb64>(&t, &c.fr, "Fr"),
        field::<Limb64>(&t, &c.fq, "Fq"),
        params2::<Limb64>(&c.fq2_nonresidue, "Fq2", "Fq"),
        field2(&t, "Fq2", "Fq"),
        ec(&t, "Fr", "G", "Fr"),
        multiexp(&t, "G", "Fr"),
        ec(&t, "Fq", "G1", "Fr"),
        multiexp(&t, "G1", "Fr"),
        ec(&t, "Fq2", "G2", "Fr"),
        multiexp(&t, "G2", "Fr"),
    ]
    .join("\n\n");
    let src = kernel_multiexp(&t, &c, true);
    assert_eq!(src, expected);
    assert!(src.contains("G_bellman_multiexp"));
}

#[test]
fn tweedle_programs_have_no_extension_and_swap_the_fields() {
    let t = templates();
    let c = curve(CurveFamily::Tweedle);
    let expected = [
        field::<Limb32>(&t, &c.fr, "Fr"),
        field::<Limb32>(&t, &c.fq, "Fq"),
        ec(&t, "Fq", "Dee", "Fr"),
        polycommit_round_reduce(&t, "Dee", "Fr"),
        ec(&t, "Fr", "Dum", "Fq"),
        polycommit_round_reduce(&t, "Dum", "Fq"),
    ]
    .join("\n\n");
    let src = kernel_polycommit(&t, &c, false);
    assert_eq!(src, expected);
    assert!(!src.contains("NONRESIDUE"));
    assert!(src.contains("Dee_projective Dee_add(Fq x, Fr e);"));
    assert!(src.contains("Dum_projective Dum_add(Fr x, Fq e);"));
}

#[test]
fn polycommit_program_differs_from_multiexp_only_in_the_kernels() {
    let t = templates();
    for family in [CurveFamily::Bn382, CurveFamily::Bls12381, CurveFamily::Bls12377, CurveFamily::Bn254, CurveFamily::Tweedle] {
        let c = curve(family);
        let m = kernel_multiexp(&t, &c, true);
        let p = kernel_polycommit(&t, &c, true);
        assert_eq!(
            m.replace("bellman_multiexp(__global", "polycommit_round_reduce(__global").replace("* exps)", "* c)"),
            p
        );
    }
}

#[test]
fn sources_are_the_same_on_every_call() {
    let t = templates();
    let c = curve(CurveFamily::Bn254);
    let first = kernel_multiexp(&t, &c, true);
    for _ in 0..3 {
        assert_eq!(kernel_multiexp(&t, &c, true).as_bytes(), first.as_bytes());
    }
}

#[test]
fn prefix_map_holds_the_groups_of_the_family() {
    let map = get_prefix_map(CurveGroup::Bls12381G2);
    assert_eq!(map.len(), 2);
    assert_eq!(map.get(CurveGroup::Bls12381G1).map(|s| s.as_str()), Some("G1_"));
    assert_eq!(map.get(CurveGroup::Bls12381G2).map(|s| s.as_str()), Some("G2_"));
    assert_eq!(map.get(CurveGroup::Bn254G1), None);
    assert_eq!(map.get(CurveGroup::Bn382G), None);
    assert_eq!(map.kernel_name(CurveGroup::Bls12381G1, "bellman_multiexp"), "G1_bellman_multiexp");

    let bn = get_prefix_map(CurveGroup::Bn382G1);
    assert_eq!(bn.len(), 3);
    assert_eq!(bn.get(CurveGroup::Bn382G).map(|s| s.as_str()), Some("G_"));
    assert_eq!(bn.get(CurveGroup::Bn382G1).map(|s| s.as_str()), Some("G1_"));
    assert_eq!(bn.get(CurveGroup::Bn382G2).map(|s| s.as_str()), Some("G2_"));

    let tw = get_prefix_map(CurveGroup::TweedleDum);
    assert_eq!(tw.get(CurveGroup::TweedleDee).map(|s| s.as_str()), Some("Dee_"));
    assert_eq!(tw.get(CurveGroup::TweedleDum).map(|s| s.as_str()), Some("Dum_"));
    assert_eq!(tw.kernel_name(CurveGroup::TweedleDum, "polycommit_round_reduce"), "Dum_polycommit_round_reduce");
}

#[test]
fn prefixes_are_distinct_within_a_family_and_match_the_point_names() {
    for family in [CurveFamily::Bn382, CurveFamily::Bls12381, CurveFamily::Bls12377, CurveFamily::Bn254, CurveFamily::Tweedle] {
        let groups = family.groups();
        for (i, a) in groups.iter().enumerate() {
            assert_eq!(a.family(), family);
            assert_eq!(a.prefix(), format!("{}_", a.point_name()));
            for b in groups.iter().skip(i + 1) {
                assert_ne!(a.prefix(), b.prefix());
            }
        }
        assert_eq!(family.has_fp2(), family != CurveFamily::Tweedle);
    }
}

#[test]
fn the_nonresidue_is_as_long_as_the_base_field() {
    assert!(curve(CurveFamily::Bls12381).is_wf());
    let mut short = curve(CurveFamily::Bls12381);
    short.fq2_nonresidue = vec![300];
    assert!(!short.is_wf());
    let mut tweedle = curve(CurveFamily::Tweedle);
    tweedle.fq2_nonresidue = Vec::new();
    assert!(tweedle.is_wf());
    let mut uneven = curve(CurveFamily::Bn254);
    uneven.fr.r2 = vec![1];
    assert!(!uneven.is_wf());
}

#[test]
fn sections_hold_none_of_the_placeholders_they_fill_in() {
    let awkward = Templates {
        common: "FIELD FIEFIELDLD".to_string(),
        field: "FIELFIELDD FIELD2 FFIELD".to_string(),
        field2: "FIELD2FIELD FIELFIELD2D FIELDFIELD2".to_string(),
        ec: "FIELPOINTD POIFIELDNT EXPOPOINTNENT POINEXPONENTT FIELDPOINTEXPONENT".to_string(),
        fft: "FFIELDIELD".to_string(),
        multiexp: "POIPOINTNT EXPONEEXPONENTNT POINEXPONENTT".to_string(),
        polycommit_round_reduce: "EXPOPOINTNENT POINTEXPONENT".to_string(),
    };
    for family in [CurveFamily::Bn382, CurveFamily::Bls12381, CurveFamily::Bls12377, CurveFamily::Bn254, CurveFamily::Tweedle] {
        for g in family.groups() {
            let curve_code = ec(&awkward, g.base_field_name(), g.point_name(), g.scalar_field_name());
            assert!(!curve_code.contains("POINT"));
            assert!(!curve_code.contains("EXPONENT"));
            if family != CurveFamily::Tweedle {
                assert!(!curve_code.contains("FIELD"));
            }
            for kernel in [
                multiexp(&awkward, g.point_name(), g.scalar_field_name()),
                polycommit_round_reduce(&awkward, g.point_name(), g.scalar_field_name()),
            ] {
                assert!(!kernel.contains("POINT"));
                assert!(!kernel.contains("EXPONENT"));
            }
        }
    }
    for name in ["Fr", "Fq"] {
        assert!(!field::<Limb64>(&awkward, &prime_field(1), name).contains("FIELD"));
        assert!(!field::<Limb32>(&awkward, &prime_field(1), name).contains("FIELD"));
    }
    assert!(!fft(&awkward, "Fr").contains("FIELD"));
    assert!(!field2(&awkward, "Fq2", "Fq").contains("FIELD"));
    assert!(!params2::<Limb64>(&vec![1, 2], "Fq2", "Fq").contains("FIELD"));
}

#[test]
fn a_name_that_begins_as_a_placeholder_ends_can_complete_it() {
    let mut t = templates();
    t.ec = "FIELPOINT".to_string();
    assert_eq!(ec(&t, "Fq", "Dee", "Fr"), "FIELDee");
    assert_eq!(ec(&t, "Fq", "G1", "Fr"), "FIELG1");
}
