use merkle_partial::field::{Basic, Composite, Leaf, Node};
use merkle_partial::merkle_tree_overlay::{BasicType, Overlay};
use typenum::{Unsigned, U2, U4, U8};

#[test]
fn variable_list_overlay() {
    let t = Overlay::variable_list(Overlay::Basic(BasicType::U256), U8::to_u64());
    assert_eq!(
        t.get_node(0),
        Node::Composite(Composite {
            ident: "".to_owned(),
            index: 0,
            height: t.height(),
        })
    );

    assert_eq!(t.get_node(1), Node::Intermediate(1));
    assert_eq!(t.get_node(10), Node::Intermediate(10));

    assert_eq!(
        t.get_node(2),
        Node::Leaf(Leaf::Length(Basic {
            ident: "len".to_string(),
            index: 2,
            size: 32,
            offset: 0
        }))
    );

    assert_eq!(
        t.get_node(15),
        Node::Leaf(Leaf::Basic(vec![Basic {
            ident: 0.to_string(),
            index: 15,
            size: 32,
            offset: 0
        }]))
    );

    assert_eq!(
        t.get_node(18),
        Node::Leaf(Leaf::Basic(vec![Basic {
            ident: 3.to_string(),
            index: 18,
            size: 32,
            offset: 0
        }]))
    );

    assert_eq!(
        t.get_node(22),
        Node::Leaf(Leaf::Basic(vec![Basic {
            ident: 7.to_string(),
            index: 22,
            size: 32,
            offset: 0
        }]))
    );

    assert_eq!(t.get_node(23), Node::Unattached(23));
    assert_eq!(t.get_node(31), Node::Unattached(31));
    assert_eq!(t.get_node(2_u64.pow(32)), Node::Unattached(2_u64.pow(32)));
}

#[test]
fn nested_variable_list_overlay() {
    let t = Overlay::variable_list(
        Overlay::variable_list(
            Overlay::variable_list(Overlay::Basic(BasicType::U256), U2::to_u64()),
            U2::to_u64(),
        ),
        U4::to_u64(),
    );

    assert_eq!(
        t.get_node(0),
        Node::Composite(Composite {
            ident: "".to_owned(),
            index: 0,
            height: t.height(),
        })
    );

    assert_eq!(t.get_node(1), Node::Intermediate(1));
    assert_eq!(t.get_node(4), Node::Intermediate(4));

    assert_eq!(
        t.get_node(2),
        Node::Leaf(Leaf::Length(Basic {
            ident: "len".to_string(),
            index: 2,
            size: 32,
            offset: 0
        }))
    );

    assert_eq!(
        t.get_node(16),
        Node::Leaf(Leaf::Length(Basic {
            ident: "len".to_string(),
            index: 16,
            size: 32,
            offset: 0
        }))
    );

    assert_eq!(
        t.get_node(22),
        Node::Leaf(Leaf::Length(Basic {
            ident: "len".to_string(),
            index: 22,
            size: 32,
            offset: 0
        }))
    );

    assert_eq!(
        t.get_node(32),
        Node::Composite(Composite {
            ident: 1.to_string(),
            index: 32,
            height: 2
        })
    );

    assert_eq!(
        t.get_node(176),
        Node::Leaf(Leaf::Basic(vec![Basic {
            ident: 1.to_string(),
            index: 176,
            size: 32,
            offset: 0
        }]))
    );

    assert_eq!(t.get_node(45), Node::Unattached(45));
    assert_eq!(t.get_node(177), Node::Unattached(177));
    assert_eq!(t.get_node(123456789), Node::Unattached(123456789));
}
