use algebra_kernels::field::{define_field, field, params, FieldParams};
use algebra_kernels::limb::{Limb, Limb32, Limb64};
use algebra_kernels::templates::Templates;

fn templates() -> Templates {
    Templates {
        common: "#define FIELD_COMMON".to_string(),
        field: "FIELD FIELD_mul(FIELD a, FIELD b);".to_string(),
        field2: String::new(),
        ec: String::new(),
        fft: String::new(),
        multiexp: String::new(),
        polycommit_round_reduce: String::new(),
    }
}

fn small_field() -> FieldParams {
    FieldParams {
        modulus: vec![0xffff_ffff_0000_0001],
        r2: vec![5],
        one: vec![0x0000_0001_ffff_fffe],
        inv: 0xffff_fffe_ffff_ffff,
        nvidia_add_sub: "// FIELD_add_nvidia".to_string(),
    }
}

#[test]
fn define_field_lists_the_limbs_in_decimal() {
    let limbs = vec![Limb64::new(1), Limb64::new(0), Limb64::new(u64::MAX)];
    assert_eq!(
        define_field("FIELD_P", &limbs),
        "#define FIELD_P ((FIELD){ { 1, 0, 18446744073709551615 } })"
    );
    let one = vec![Limb32::new(7)];
    assert_eq!(define_field("FIELD_ONE", &one), "#define FIELD_ONE ((FIELD){ { 7 } })");
    let none: Vec<Limb32> = Vec::new();
    assert_eq!(define_field("X", &none), "#define X ((FIELD){ {  } })");
}

#[test]
fn params_for_64_bit_limbs() {
    let expected = [
        "#define FIELD_limb ulong",
        "#define FIELD_LIMBS 1",
        "#define FIELD_LIMB_BITS 64",
        "#define FIELD_ONE ((FIELD){ { 8589934590 } })",
        "#define FIELD_P ((FIELD){ { 18446744069414584321 } })",
        "#define FIELD_R2 ((FIELD){ { 5 } })",
        "#define FIELD_ZERO ((FIELD){ { 0 } })",
        "#define FIELD_INV 18446744069414584319",
        "typedef struct { FIELD_limb val[FIELD_LIMBS]; } FIELD;",
    ]
    .join("\n");
    assert_eq!(params::<Limb64>(&small_field()), expected);
}

#[test]
fn params_for_32_bit_limbs() {
    let expected = [
        "#define FIELD_limb uint",
        "#define FIELD_LIMBS 2",
        "#define FIELD_LIMB_BITS 32",
        "#define FIELD_ONE ((FIELD){ { 4294967294, 1 } })",
        "#define FIELD_P ((FIELD){ { 1, 4294967295 } })",
        "#define FIELD_R2 ((FIELD){ { 5, 0 } })",
        "#define FIELD_ZERO ((FIELD){ { 0, 0 } })",
        "#define FIELD_INV 18446744069414584319",
        "typedef struct { FIELD_limb val[FIELD_LIMBS]; } FIELD;",
    ]
    .join("\n");
    assert_eq!(params::<Limb32>(&small_field()), expected);
}

#[test]
fn field_names_every_bare_word() {
    let expected = [
        "#define Fr_COMMON",
        "#define Fr_limb ulong",
        "#define Fr_LIMBS 1",
        "#define Fr_LIMB_BITS 64",
        "#define Fr_ONE ((Fr){ { 8589934590 } })",
        "#define Fr_P ((Fr){ { 18446744069414584321 } })",
        "#define Fr_R2 ((Fr){ { 5 } })",
        "#define Fr_ZERO ((Fr){ { 0 } })",
        "#define Fr_INV 18446744069414584319",
        "typedef struct { Fr_limb val[Fr_LIMBS]; } Fr;",
        "// Fr_add_nvidia",
        "Fr Fr_mul(Fr a, Fr b);",
    ]
    .join("\n");
    let out = field::<Limb64>(&templates(), &small_field(), "Fr");
    assert_eq!(out, expected);
    assert!(!out.contains("FIELD"));
}

#[test]
fn field_of_two_widths_differs_only_in_the_limbs() {
    let wide = field::<Limb64>(&templates(), &small_field(), "Fr64");
    let narrow = field::<Limb32>(&templates(), &small_field(), "Fr32");
    assert!(wide.contains("#define Fr64_limb ulong"));
    assert!(narrow.contains("#define Fr32_limb uint"));
    assert!(narrow.contains("#define Fr32_LIMBS 2"));
    assert!(wide.starts_with("#define Fr64_COMMON\n"));
    assert!(narrow.ends_with("\nFr32 Fr32_mul(Fr32 a, Fr32 b);"));
}

#[test]
fn field_of_wide_numbers() {
    let f = FieldParams {
        modulus: vec![1, 2, 3, 4],
        r2: vec![5, 6, 7, 8],
        one: vec![9, 10, 11, 12],
        inv: 13,
        nvidia_add_sub: String::new(),
    };
    let out = params::<Limb32>(&f);
    assert!(out.contains("#define FIELD_LIMBS 8\n"));
    assert!(out.contains("#define FIELD_ONE ((FIELD){ { 9, 0, 10, 0, 11, 0, 12, 0 } })\n"));
    assert!(out.contains("#define FIELD_ZERO ((FIELD){ { 0, 0, 0, 0, 0, 0, 0, 0 } })\n"));
    assert_eq!(Limb32::limbs_of(&f.one).len(), 8);
}

#[test]
fn the_integers_of_a_field_have_one_length() {
    assert!(small_field().is_wf());
    let mut short_modulus = small_field();
    short_modulus.modulus = Vec::new();
    assert!(!short_modulus.is_wf());
    let mut long_r2 = small_field();
    long_r2.r2 = vec![5, 0];
    assert!(!long_r2.is_wf());
    let empty = FieldParams {
        modulus: Vec::new(),
        r2: Vec::new(),
        one: Vec::new(),
        inv: 0,
        nvidia_add_sub: String::new(),
    };
    assert!(empty.is_wf());
}
