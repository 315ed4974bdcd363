use gpu_sand::particle::{decode_records, encode_record, encode_records, Material, ONE_F32_BITS, RECORD_SIZE};
use gpu_sand::staging::{particle_capacity, plan_upload};

fn sample(i: u32) -> Material {
    Material {
        id: i,
        align_pad: 0x0102_0304_0506_0708,
        colour_r: (i as f32 / 100.0).to_bits(),
        colour_g: 2,
        colour_b: 3,
        colour_pad: 0xaabb,
        position_x: (i as f32).to_bits(),
        position_y: 100f32.to_bits(),
        velocity_x: 4,
        velocity_y: 5,
        mass: 6,
        mass_pad: 0xccdd,
        target_x: 7,
        target_y: 8,
        force: 9,
        stable: 10,
        tags: 11,
        gas: 12,
    }
}

#[test]
fn default_record_values() {
    let r = Material::default();
    assert_eq!(r.id, 0);
    assert_eq!(r.align_pad, 64);
    assert_eq!(f32::from_bits(r.colour_r), 1.0);
    assert_eq!(f32::from_bits(r.colour_g), 0.0);
    assert_eq!(f32::from_bits(r.colour_b), 1.0);
    assert_eq!(r.colour_pad, 16);
    assert_eq!(f32::from_bits(r.mass), 1.0);
    assert_eq!(r.mass_pad, 16);
    assert_eq!(r.mass, ONE_F32_BITS);
    assert_eq!((r.position_x, r.position_y, r.velocity_x, r.velocity_y), (0, 0, 0, 0));
    assert_eq!((r.target_x, r.target_y, r.force, r.stable, r.tags, r.gas), (0, 0, 0, 0, 0, 0));
}

#[test]
fn record_field_offsets() {
    let mut out = Vec::new();
    encode_record(&sample(0x1122_3344), &mut out);
    assert_eq!(out.len(), RECORD_SIZE);
    assert_eq!(&out[0..4], &[0x44, 0x33, 0x22, 0x11]);
    assert_eq!(&out[4..8], &[0, 0, 0, 0]);
    assert_eq!(&out[8..16], &[8, 7, 6, 5, 4, 3, 2, 1]);
    assert_eq!(&out[20..24], &2u32.to_le_bytes());
    assert_eq!(&out[24..28], &3u32.to_le_bytes());
    assert_eq!(&out[28..32], &[0xbb, 0xaa, 0, 0]);
    assert_eq!(&out[36..40], &100f32.to_bits().to_le_bytes());
    assert_eq!(&out[40..44], &4u32.to_le_bytes());
    assert_eq!(&out[48..52], &6u32.to_le_bytes());
    assert_eq!(&out[52..56], &[0xdd, 0xcc, 0, 0]);
    assert_eq!(&out[56..60], &7u32.to_le_bytes());
    assert_eq!(&out[64..68], &9u32.to_le_bytes());
    assert_eq!(&out[72..76], &11u32.to_le_bytes());
    assert_eq!(&out[76..80], &12u32.to_le_bytes());
}

#[test]
fn encode_appends() {
    let mut out = vec![9u8, 9];
    encode_record(&Material::default(), &mut out);
    assert_eq!(out.len(), 2 + RECORD_SIZE);
    assert_eq!(&out[0..2], &[9, 9]);
    assert_eq!(&out[10..18], &64u64.to_le_bytes());
}

#[test]
fn round_trip_empty() {
    let bytes = encode_records(&Vec::new());
    assert!(bytes.is_empty());
    assert_eq!(decode_records(&bytes), Some(Vec::new()));
}

#[test]
fn round_trip_many_records() {
    let records: Vec<Material> = (0..1024).map(sample).collect();
    let bytes = encode_records(&records);
    assert_eq!(bytes.len(), 1024 * 80);
    assert_eq!(decode_records(&bytes), Some(records));
}

#[test]
fn round_trip_is_byte_identical() {
    let records: Vec<Material> = (1..4).map(sample).collect();
    let bytes = encode_records(&records);
    let back = decode_records(&bytes).unwrap();
    assert_eq!(encode_records(&back), bytes);
}

#[test]
fn decode_rejects_partial_record() {
    let bytes = encode_records(&vec![sample(1), sample(2)]);
    assert_eq!(decode_records(&bytes[..159]), None);
    assert_eq!(decode_records(&bytes[..79]), None);
    assert_eq!(decode_records(&bytes[..80]), Some(vec![sample(1)]));
}

#[test]
fn decode_ignores_padding_gaps() {
    let mut bytes = encode_records(&vec![sample(5)]);
    bytes[5] = 0xff;
    bytes[31] = 0xff;
    assert_eq!(decode_records(&bytes), Some(vec![sample(5)]));
}

#[test]
fn upload_plan_sizes() {
    let records: Vec<Material> = (0..1024).map(sample).collect();
    let plan = plan_upload(&records);
    assert_eq!(plan.destination_len, 1024);
    assert_eq!(plan.source.len(), 1024 * 80);
    assert_eq!(plan.source, encode_records(&records));
}

#[test]
fn capacity_of_workgroups() {
    assert_eq!(particle_capacity(16), 1024);
    assert_eq!(particle_capacity(0), 0);
    assert_eq!(particle_capacity(u32::MAX), 64 * u32::MAX as u64);
}
