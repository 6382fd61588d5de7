use cauldron::rtti::{
    DecimaRTTI, DecimaRTTIAtom, DecimaRTTIBitSetEnum, DecimaRTTICompound, DecimaRTTICompoundBase,
    DecimaRTTIContainer, DecimaRTTIEnum, DecimaRTTIKind, DecimaRTTIPod, DecimaRTTIPointer,
    NamedRTTI,
};

fn s(text: &str) -> String {
    text.to_string()
}

fn atom(name: &str) -> DecimaRTTI {
    DecimaRTTI::Atom(DecimaRTTIAtom { id: 1, name: s(name) })
}

#[test]
fn plain_data_is_named_by_its_size_in_hex() {
    assert_eq!(DecimaRTTIPod { id: 1, size: 0x1f }.get_symbol_name(), "DecimaRTTIPod(1f)");
    assert_eq!(DecimaRTTIPod { id: 1, size: 0 }.get_symbol_name(), "DecimaRTTIPod(0)");
    assert_eq!(DecimaRTTIPod { id: 1, size: 16 }.get_symbol_name(), "DecimaRTTIPod(10)");
    assert_eq!(
        DecimaRTTIPod { id: 1, size: 0xdead_beef }.get_symbol_name(),
        "DecimaRTTIPod(deadbeef)"
    );
}

#[test]
fn wrapped_types_name_their_item_in_angle_brackets() {
    assert_eq!(atom("uint32").get_symbol_name(), "uint32");
    let array = DecimaRTTI::Container(DecimaRTTIContainer {
        id: 2,
        outer_name: Some(s("Array")),
        item_type: Box::new(atom("uint32")),
    });
    assert_eq!(array.get_symbol_name(), "Array<uint32>");
    let pointer = DecimaRTTI::Pointer(DecimaRTTIPointer {
        id: 3,
        outer_name: Some(s("Ref")),
        item_type: Box::new(array),
    });
    assert_eq!(pointer.get_symbol_name(), "Ref<Array<uint32>>");
    let nameless = DecimaRTTI::Pointer(DecimaRTTIPointer {
        id: 4,
        outer_name: None,
        item_type: Box::new(DecimaRTTI::Pod(DecimaRTTIPod { id: 5, size: 8 })),
    });
    assert_eq!(nameless.get_symbol_name(), "<DecimaRTTIPod(8)>");
    assert_eq!(NamedRTTI::get_symbol_name(&nameless), "<DecimaRTTIPod(8)>");
}

#[test]
fn accessors_answer_only_for_their_kind() {
    let pod = DecimaRTTI::Pod(DecimaRTTIPod { id: 9, size: 4 });
    assert_eq!(pod.kind(), DecimaRTTIKind::Pod);
    assert_eq!(pod.as_pod(), Some(&DecimaRTTIPod { id: 9, size: 4 }));
    assert!(pod.as_compound().is_none() && pod.as_atom().is_none() && pod.as_enum().is_none());
    assert!(pod.as_pointer().is_none() && pod.as_container().is_none());
    assert!(pod.as_bitset_enum().is_none());

    let bases = vec![DecimaRTTICompoundBase { base_type: 0x1000, offset: 8 }];
    let compound =
        DecimaRTTI::Compound(DecimaRTTICompound { id: 2, name: s("Entity"), bases: bases.clone() });
    assert_eq!(compound.kind(), DecimaRTTIKind::Compound);
    assert!(compound.as_pod().is_none());
    assert_eq!(compound.as_compound().unwrap().bases, bases);
    assert_eq!(compound.get_symbol_name(), "Entity");

    let plain = DecimaRTTI::Enum(DecimaRTTIEnum { id: 1, flags: false, name: s("E") });
    let flags = DecimaRTTI::Enum(DecimaRTTIEnum { id: 1, flags: true, name: s("F") });
    assert_eq!(plain.kind(), DecimaRTTIKind::Enum);
    assert_eq!(flags.kind(), DecimaRTTIKind::FlagsEnum);
    assert_eq!(plain.as_enum().unwrap().name, "E");
    assert_eq!(flags.as_enum().unwrap().name, "F");
    assert_eq!(flags.get_symbol_name(), "F");

    let bits = DecimaRTTI::BitSetEnum(DecimaRTTIBitSetEnum { id: 1, name: s("B") });
    assert_eq!(bits.kind(), DecimaRTTIKind::BitSetEnum);
    assert_eq!(bits.as_bitset_enum().unwrap().name, "B");
    assert!(bits.as_enum().is_none());

    assert_eq!(atom("A").kind(), DecimaRTTIKind::Atom);
    assert_eq!(atom("A").as_atom().unwrap().name, "A");
    let pointer = DecimaRTTI::Pointer(DecimaRTTIPointer {
        id: 3,
        outer_name: Some(s("Ref")),
        item_type: Box::new(atom("A")),
    });
    assert_eq!(pointer.kind(), DecimaRTTIKind::Pointer);
    assert_eq!(pointer.as_pointer().unwrap().item_type.get_symbol_name(), "A");
    assert!(pointer.as_container().is_none());
}
