use algebra_kernels::limb::{Limb, Limb32, Limb64};

fn values32(limbs: &[Limb32]) -> Vec<u32> {
    limbs.iter().map(|l| l.value()).collect()
}

fn values64(limbs: &[Limb64]) -> Vec<u64> {
    limbs.iter().map(|l| l.value()).collect()
}

#[test]
fn limb_shapes() {
    assert_eq!(Limb32::bits(), 32);
    assert_eq!(Limb64::bits(), 64);
    assert_eq!(Limb32::opencl_type(), "uint");
    assert_eq!(Limb64::opencl_type(), "ulong");
    assert_eq!(Limb32::ptx_info(), ("u32", "r"));
    assert_eq!(Limb64::ptx_info(), ("u64", "l"));
    assert_eq!(Limb32::zero().value(), 0);
    assert_eq!(Limb64::zero().value(), 0);
    assert_eq!(Limb32::new(0xdead_beef).value(), 0xdead_beef);
    assert_eq!(Limb64::new(0xdead_beef_0bad_f00d).value(), 0xdead_beef_0bad_f00d);
    assert_eq!(Limb32::new(7).to_u64(), 7);
    assert_eq!(Limb64::new(u64::MAX).to_u64(), u64::MAX);
}

#[test]
fn limbs_of_64_keeps_the_words() {
    let words = vec![1u64, 0, u64::MAX, 0x0123_4567_89ab_cdef];
    assert_eq!(values64(&Limb64::limbs_of(&words)), words);
    assert!(Limb64::limbs_of(&Vec::new()).is_empty());
}

#[test]
fn limbs_of_32_cuts_each_word_low_half_first() {
    let words = vec![0x0123_4567_89ab_cdefu64, 1, 0xffff_ffff_0000_0000];
    assert_eq!(
        values32(&Limb32::limbs_of(&words)),
        vec![0x89ab_cdef, 0x0123_4567, 1, 0, 0, 0xffff_ffff]
    );
    assert!(Limb32::limbs_of(&Vec::new()).is_empty());
}

#[test]
fn both_widths_hold_the_same_number() {
    let words = vec![0xfedc_ba98_7654_3210u64, 0x0f1e_2d3c_4b5a_6978, 42];
    let wide = Limb64::limbs_of(&words);
    let narrow = Limb32::limbs_of(&words);
    assert_eq!(narrow.len(), 2 * wide.len());
    for (i, w) in wide.iter().enumerate() {
        let rebuilt = (narrow[2 * i].value() as u64) | ((narrow[2 * i + 1].value() as u64) << 32);
        assert_eq!(rebuilt, w.value());
    }
}
