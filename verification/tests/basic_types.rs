use merkle_partial::field::{Basic, Leaf, Node};
use merkle_partial::merkle_tree_overlay::{BasicType, Overlay};

fn scalar_leaf(size: u8) -> Node {
    Node::Leaf(Leaf::Basic(vec![Basic {
        ident: "".to_owned(),
        index: 0,
        size,
        offset: 0,
    }]))
}

fn all_basic_types() -> Vec<(BasicType, u32)> {
    vec![
        (BasicType::Bool, 8),
        (BasicType::U8, 8),
        (BasicType::U16, 16),
        (BasicType::U32, 32),
        (BasicType::U64, 64),
        (BasicType::U128, 128),
        (BasicType::U256, 256),
        (BasicType::Usize, usize::BITS),
    ]
}

#[test]
fn basic_type_widths() {
    for (basic, bits) in all_basic_types() {
        assert_eq!(basic.bit_width(), bits);
        assert_eq!(basic.byte_width() as u32, bits / 8);
    }
    assert_eq!(BasicType::Bool.byte_width(), 1);
    assert_eq!(BasicType::U8.byte_width(), 1);
    assert_eq!(BasicType::U16.byte_width(), 2);
    assert_eq!(BasicType::U32.byte_width(), 4);
    assert_eq!(BasicType::U64.byte_width(), 8);
    assert_eq!(BasicType::U128.byte_width(), 16);
    assert_eq!(BasicType::U256.byte_width(), 32);
    assert_eq!(
        BasicType::Usize.byte_width() as usize,
        std::mem::size_of::<usize>()
    );
}

#[test]
fn basic_overlay_is_a_single_leaf() {
    for (basic, bits) in all_basic_types() {
        let t = Overlay::Basic(basic);
        assert!(t.is_well_formed());
        assert_eq!(t.height(), 0);
        assert_eq!(t.first_leaf(), 0);
        assert_eq!(t.last_leaf(), 0);
        assert_eq!(t.get_node(0), scalar_leaf((bits / 8) as u8));
    }
}

#[test]
fn basic_overlay_has_no_other_node() {
    for (basic, _) in all_basic_types() {
        let t = Overlay::Basic(basic);
        for k in [1u64, 2, 3, 15, 1 << 40, u64::MAX] {
            assert_eq!(t.get_node(k), Node::Unattached(k));
        }
    }
}
