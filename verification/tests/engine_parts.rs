use std::collections::{HashMap, HashSet};

use salon::editor::edit::Edit;
use salon::editor::ir_generator::to_ir_module;
use salon::editor::result::{collect_result_values, has_result_values};
use salon::engine::dispatch::{div_up, num_workgroups};
use salon::engine::execution_context::{ops_to_run, ExecutionContext};
use salon::engine::histogram::{DataForEditor, ImageHistogram};
use salon::engine::image::{BufferProperties, ColorSpace, ImageFormat, ImageProperties};
use salon::engine::ring_buffer::RingBuffer;
use salon::engine::shader::Shader;
use salon::engine::value_store::ValueStore;
use salon::float::F32;
use salon::ir::value::Value;
use salon::rectangle::Rectangle;

fn buffer() -> Vec<u32> {
    (0..1100u32).map(|i| i % 300).collect()
}

#[test]
fn histogram_reads_four_channels_of_256_bins() {
    let data = buffer();
    let h = ImageHistogram::from_u32_slice(&data);
    assert_eq!(h.r.len(), 256);
    assert_eq!(h.g[0], 256 % 300);
    assert_eq!(h.b[0], 512 % 300);
    assert_eq!(h.luma[255], (768 + 255) % 300);
    assert_eq!(h.num_bins, 1024 % 300);
    assert_eq!(ImageHistogram::max_bins(), 256);
    assert_eq!(ImageHistogram::num_bins_for((640, 480)), 100);
}

#[test]
fn histogram_max_is_over_all_channels() {
    let data = buffer();
    let h = ImageHistogram::from_u32_slice(&data);
    assert_eq!(h.max_value(), 299);
    let zeros = vec![0u32; 1025];
    assert_eq!(ImageHistogram::from_u32_slice(&zeros).max_value(), 0);
}

#[test]
fn data_for_editor_holds_the_final_histogram() {
    let data = buffer();
    let d = DataForEditor::from_buffer(&data);
    assert_eq!(d.histogram_final.r[10], 10);
}

#[test]
fn image_format_sizes() {
    assert_eq!(ImageFormat::Rgba16Float.bytes_per_channel(), 2);
    assert_eq!(ImageFormat::Rgba16Float.bytes_per_pixel(), 8);
}

#[test]
fn ring_buffer_creates_only_when_all_are_in_use() {
    let mut ring: RingBuffer<u32> = RingBuffer::new(BufferProperties { size: 16 });
    assert_eq!(*ring.get(|| 1), 1);
    assert_eq!(*ring.get(|| 2), 2);
    ring.mark_all_available();
    assert_eq!(*ring.get(|| 3), 1);
    assert_eq!(*ring.get(|| 4), 2);
    assert_eq!(*ring.get(|| 5), 5);
    assert_eq!(ring.properties().size, 16);
}

#[test]
fn rerun_of_the_same_module_reuses_everything() {
    let (module, _) = to_ir_module(&Edit::trivial());
    let mut ctx: ExecutionContext<u32, u32> = ExecutionContext::new();
    assert!(ctx.compute_reusable_ids_set(&module, 7).is_empty());
    let (again, _) = to_ir_module(&Edit::trivial());
    ctx.set_last(module, 7);
    let reusable = ctx.compute_reusable_ids_set(&again, 7);
    assert_eq!(reusable.len(), again.ops().len());
    assert!(ops_to_run(&again, &reusable).is_empty());
    assert!(ctx.compute_reusable_ids_set(&again, 8).is_empty());
}

#[test]
fn a_changed_parameter_reruns_from_that_op_on() {
    let (module, _) = to_ir_module(&Edit::trivial());
    let mut ctx: ExecutionContext<u32, u32> = ExecutionContext::new();
    ctx.set_last(module, 7);
    let mut e = Edit::trivial();
    e.masked_edits[0].edit.exposure = F32::from_bits(0x3f80_0000);
    let (changed, _) = to_ir_module(&e);
    let reusable = ctx.compute_reusable_ids_set(&changed, 7);
    let expected: HashSet<i32> = [0, 1].into_iter().collect();
    assert_eq!(reusable, expected);
    assert_eq!(ops_to_run(&changed, &reusable), vec![2, 3, 4]);
}

#[test]
fn value_store_reuses_a_matching_image() {
    let props = ImageProperties { dimensions: (4, 4), format: ImageFormat::Rgba16Float, color_space: ColorSpace::Linear };
    let other = ImageProperties { dimensions: (8, 4), ..props };
    let mut store: ValueStore<(u32, ImageProperties), u32> = ValueStore::new();
    let made = *store.ensure_value_at_id_is_image_of_properties(3, &props, |img| img.1, |p| (1, p));
    assert_eq!(made.0, 1);
    let kept = *store.ensure_value_at_id_is_image_of_properties(3, &props, |img| img.1, |p| (2, p));
    assert_eq!(kept.0, 1);
    let remade = *store.ensure_value_at_id_is_image_of_properties(3, &other, |img| img.1, |p| (3, p));
    assert_eq!(remade.0, 3);
    assert_eq!(store.map.len(), 1);
}

#[test]
fn value_store_does_not_reuse_a_mapped_buffer() {
    let props = BufferProperties { size: 64 };
    let mut store: ValueStore<u32, (u32, BufferProperties)> = ValueStore::new();
    store.ensure_value_at_id_is_buffer_of_properties(1, &props, |b| b.1, |_| false, |p| (1, p));
    let kept = *store.ensure_value_at_id_is_buffer_of_properties(1, &props, |b| b.1, |_| false, |p| (2, p));
    assert_eq!(kept.0, 1);
    let fresh = *store.ensure_value_at_id_is_buffer_of_properties(1, &props, |b| b.1, |_| true, |p| (3, p));
    assert_eq!(fresh.0, 3);
    store.map.insert(2, Value::Image(9));
    let replaced = *store.ensure_value_at_id_is_buffer_of_properties(2, &props, |b| b.1, |_| false, |p| (4, p));
    assert_eq!(replaced.0, 4);
}

#[test]
fn results_are_gathered_by_id() {
    let (_, ids) = to_ir_module(&Edit::trivial());
    let mut map: HashMap<i32, Value<&'static str, &'static str>> = HashMap::new();
    map.insert(0, Value::Image("input"));
    map.insert(1, Value::Image("mask"));
    map.insert(2, Value::Image("final"));
    map.insert(3, Value::Buffer("histogram"));
    assert!(has_result_values(&map, &ids));
    let r = collect_result_values(&map, &ids);
    assert_eq!(*r.final_image, "final");
    assert_eq!(*r.geometry_only, "input");
    assert_eq!(*r.final_histogram, "histogram");
    assert_eq!(r.masked_edit_results.len(), 1);
    assert_eq!(*r.masked_edit_results[0].mask, "mask");
    assert_eq!(*r.masked_edit_results[0].mask_terms[0], "mask");
    assert_eq!(*r.masked_edit_results[0].result_image, "final");
}

#[test]
fn workgroups_cover_the_image() {
    assert_eq!(div_up(0, 16), 0);
    assert_eq!(div_up(1, 16), 1);
    assert_eq!(div_up(16, 16), 1);
    assert_eq!(div_up(17, 16), 2);
    assert_eq!(div_up(u32::MAX, 16), 268435456);
    assert_eq!(num_workgroups((1920, 1080), 16), (120, 68));
    assert_eq!(num_workgroups((1921, 1), 8), (241, 1));
}

#[test]
fn shader_from_code_has_no_libraries() {
    let s = Shader::from_code("fn main() {}");
    assert_eq!(s.body_code(), "fn main() {}");
    assert!(s.libraries().is_empty());
}

#[test]
fn floats_compare_as_ieee_values() {
    let pos = F32::from_bits(0);
    let neg = F32::from_bits(0x8000_0000);
    let nan = F32::from_bits(0x7fc0_0000);
    assert!(pos.ieee_eq(&neg));
    assert!(neg.is_zero());
    assert!(!nan.ieee_eq(&nan));
    assert!(nan.is_nan());
    assert!(F32::one().ieee_eq(&F32::from_bits(1.0f32.to_bits())));
    assert_eq!(F32::zero().to_bits(), 0);
}

#[test]
fn regular_rectangle_is_the_unit_square() {
    let r = Rectangle::regular();
    assert_eq!(r.center.x.to_bits(), 0.5f32.to_bits());
    assert_eq!(r.size.y.to_bits(), 1.0f32.to_bits());
    assert!(r.ieee_eq(&Rectangle::regular()));
}

#[test]
fn results_are_missing_without_the_mask() {
    let (_, ids) = to_ir_module(&Edit::trivial());
    let mut map: HashMap<i32, Value<&'static str, &'static str>> = HashMap::new();
    map.insert(0, Value::Image("input"));
    map.insert(2, Value::Image("final"));
    map.insert(3, Value::Buffer("histogram"));
    assert!(!has_result_values(&map, &ids));
    map.insert(1, Value::Buffer("not an image"));
    assert!(!has_result_values(&map, &ids));
    map.insert(1, Value::Image("mask"));
    assert!(has_result_values(&map, &ids));
}
