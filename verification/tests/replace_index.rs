use merkle_partial::field::{Basic, Composite, Leaf, Node};
use merkle_partial::merkle_tree_overlay::replace_index;

#[test]
fn replace_index_of_composite() {
    let node = Node::Composite(Composite {
        ident: "3".to_owned(),
        index: 4,
        height: 2,
    });
    assert_eq!(
        replace_index(node, 32),
        Node::Composite(Composite {
            ident: "3".to_owned(),
            index: 32,
            height: 2,
        })
    );
}

#[test]
fn replace_index_of_packed_leaf() {
    let node = Node::Leaf(Leaf::Basic(vec![
        Basic {
            ident: "4".to_owned(),
            index: 5,
            size: 16,
            offset: 0,
        },
        Basic {
            ident: "5".to_owned(),
            index: 5,
            size: 16,
            offset: 16,
        },
    ]));
    assert_eq!(
        replace_index(node, 77),
        Node::Leaf(Leaf::Basic(vec![
            Basic {
                ident: "4".to_owned(),
                index: 77,
                size: 16,
                offset: 0,
            },
            Basic {
                ident: "5".to_owned(),
                index: 77,
                size: 16,
                offset: 16,
            },
        ]))
    );
}

#[test]
fn replace_index_of_empty_leaf() {
    assert_eq!(
        replace_index(Node::Leaf(Leaf::Basic(vec![])), 9),
        Node::Leaf(Leaf::Basic(vec![]))
    );
}

#[test]
fn replace_index_of_length() {
    let node = Node::Leaf(Leaf::Length(Basic {
        ident: "len".to_owned(),
        index: 2,
        size: 32,
        offset: 0,
    }));
    assert_eq!(
        replace_index(node, 16),
        Node::Leaf(Leaf::Length(Basic {
            ident: "len".to_owned(),
            index: 16,
            size: 32,
            offset: 0,
        }))
    );
}

#[test]
fn replace_index_of_length_keeps_size_and_offset() {
    let node = Node::Leaf(Leaf::Length(Basic {
        ident: "count".to_owned(),
        index: 2,
        size: 8,
        offset: 3,
    }));
    assert_eq!(
        replace_index(node, 6),
        Node::Leaf(Leaf::Length(Basic {
            ident: "count".to_owned(),
            index: 6,
            size: 8,
            offset: 3,
        }))
    );
    let node = Node::Leaf(Leaf::Length(Basic {
        ident: "len".to_string(),
        index: 2,
        size: 8,
        offset: 4,
    }));
    assert_eq!(
        replace_index(node, 16),
        Node::Leaf(Leaf::Length(Basic {
            ident: "len".to_string(),
            index: 16,
            size: 8,
            offset: 4,
        }))
    );
}

#[test]
fn replace_index_with_the_same_index_changes_nothing() {
    let nodes = vec![
        Node::Composite(Composite {
            ident: "2".to_owned(),
            index: 9,
            height: 3,
        }),
        Node::Intermediate(9),
        Node::Leaf(Leaf::Basic(vec![
            Basic {
                ident: "0".to_owned(),
                index: 9,
                size: 16,
                offset: 0,
            },
            Basic {
                ident: "1".to_owned(),
                index: 9,
                size: 16,
                offset: 16,
            },
        ])),
        Node::Leaf(Leaf::Length(Basic {
            ident: "len".to_owned(),
            index: 9,
            size: 32,
            offset: 0,
        })),
        Node::Leaf(Leaf::Padding()),
        Node::Unattached(9),
    ];
    for node in nodes {
        assert_eq!(replace_index(node.clone(), 9), node);
    }
}

#[test]
fn replace_index_of_padding() {
    assert_eq!(
        replace_index(Node::Leaf(Leaf::Padding()), 5),
        Node::Leaf(Leaf::Padding())
    );
}

#[test]
fn replace_index_of_unattached_and_intermediate() {
    assert_eq!(replace_index(Node::Unattached(5), 45), Node::Unattached(45));
    assert_eq!(
        replace_index(Node::Intermediate(1), 15),
        Node::Intermediate(15)
    );
}
