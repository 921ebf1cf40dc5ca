use synapse::endpoint::NodeId;
use synapse::protocol::messages::TargetCue;
use synapse::wire::{F32Bits, F64Bits};

#[test]
fn test_f32_bits_ieee_equality() {
    assert_eq!(F32Bits(1.5f32.to_bits()), F32Bits(1.5f32.to_bits()));
    assert_ne!(F32Bits(1.5f32.to_bits()), F32Bits(2.5f32.to_bits()));
    assert_eq!(F32Bits(0.0f32.to_bits()), F32Bits((-0.0f32).to_bits()));
    let nan = F32Bits(f32::NAN.to_bits());
    assert_ne!(nan, nan);
}

#[test]
fn test_f64_bits_ieee_equality() {
    assert_eq!(F64Bits(3.25f64.to_bits()), F64Bits(3.25f64.to_bits()));
    assert_ne!(F64Bits(3.25f64.to_bits()), F64Bits((-3.25f64).to_bits()));
    assert_eq!(F64Bits(0.0f64.to_bits()), F64Bits((-0.0f64).to_bits()));
    let nan = F64Bits(f64::NAN.to_bits());
    assert_ne!(nan, nan);
}

#[test]
fn test_target_cue_equality_follows_floats() {
    let cue = |x: f32| {
        TargetCue::new(NodeId(2), 7, F32Bits(x.to_bits()), F32Bits(0.0f32.to_bits()), F32Bits(1.0f32.to_bits()), 90, 3, 1000)
    };
    assert_eq!(cue(0.0), cue(-0.0));
    let with_nan = cue(f32::NAN);
    assert_ne!(with_nan, with_nan);
}
