use visibuf::descriptor::DescriptorTable;
use visibuf::dyn_buffer::{BufferType, DynBuffer, DynBufferType, DynBufferTypeRegistry, UNDEFINED_TAG};
use visibuf::scene::BufferPayload;

struct RedPaint;
struct BluePaint;

#[test]
fn registered_tags_are_distinct() {
    let mut registry = DynBufferTypeRegistry::new();
    let mut tags: Vec<u32> = Vec::new();
    for _ in 0..5 {
        let t: BufferType<RedPaint> = registry.register_dyn_buffer_type();
        tags.push(t.to_u32());
    }
    for a in 0..tags.len() {
        assert_ne!(tags[a], UNDEFINED_TAG);
        for b in 0..a {
            assert_ne!(tags[a], tags[b]);
        }
    }
}

#[test]
fn tags_of_different_types_are_distinct() {
    let mut registry = DynBufferTypeRegistry::new();
    let red: BufferType<RedPaint> = registry.register_dyn_buffer_type();
    let blue: BufferType<BluePaint> = registry.register_dyn_buffer_type();
    assert_ne!(red.to_u32(), blue.to_u32());
    assert_ne!(red.to_untyped().to_u32(), blue.to_untyped().to_u32());
}

#[test]
fn can_upcast_only_with_the_erasing_tag() {
    let mut registry = DynBufferTypeRegistry::new();
    let red: BufferType<RedPaint> = registry.register_dyn_buffer_type();
    let blue: BufferType<BluePaint> = registry.register_dyn_buffer_type();

    let mut table: DescriptorTable<u32> = DescriptorTable::new(4);
    let desc = table.allocate(17).unwrap().to_shared();
    let erased = DynBuffer::new(red, desc);

    assert!(erased.can_upcast(&red.to_untyped()));
    assert!(!erased.can_upcast(&blue.to_untyped()));
    assert!(!erased.can_upcast(&DynBufferType::undefined()));

    let recovered = erased.upcast(red);
    assert_eq!(table.access_shared(&recovered), &17);
}

#[test]
fn undefined_buffers_never_upcast() {
    let mut registry = DynBufferTypeRegistry::new();
    let red: BufferType<RedPaint> = registry.register_dyn_buffer_type();

    let mut table: DescriptorTable<u32> = DescriptorTable::new(4);
    let desc = table.allocate(5).unwrap().to_shared();
    let erased = DynBuffer::new_undefined(desc);

    assert_eq!(erased.type_id().to_u32(), UNDEFINED_TAG);
    assert!(!erased.can_upcast(&red.to_untyped()));
    assert!(erased.can_upcast(&DynBufferType::undefined()));
}

#[test]
fn erased_references_convert_between_ownership_classes() {
    let mut registry = DynBufferTypeRegistry::new();
    let red: BufferType<BufferPayload> = registry.register_dyn_buffer_type();

    let mut table: DescriptorTable<BufferPayload> = DescriptorTable::new(4);
    let words = table.allocate(BufferPayload::MaterialWords(vec![1, 2, 3])).unwrap().to_shared();
    let erased = DynBuffer::new(red, words);

    let strong = erased.to_strong(&mut table);
    assert_eq!(strong.type_id().to_u32(), red.to_u32());
    let strong_desc = strong.upcast(red);
    match table.access_strong(&strong_desc) {
        BufferPayload::MaterialWords(w) => assert_eq!(w, &vec![1, 2, 3]),
        _ => panic!("wrong payload kind"),
    }

    let transient = erased.to_transient(&table);
    assert_eq!(transient.type_id().to_u32(), red.to_u32());
    let transient_desc = transient.upcast(red);
    match table.access_transient(&transient_desc) {
        BufferPayload::MaterialWords(w) => assert_eq!(w, &vec![1, 2, 3]),
        _ => panic!("wrong payload kind"),
    }
}

#[test]
fn buffer_type_new_unchecked_round_trips() {
    let t: BufferType<RedPaint> = BufferType::new_unchecked(41);
    assert_eq!(t.to_u32(), 41);
    assert_eq!(t.to_untyped().to_u32(), 41);
    let copy = t;
    assert_eq!(copy.to_u32(), 41);
}
