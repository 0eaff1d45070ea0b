use spirt_print::ir::{Const, DataInst, Func, Type};
use spirt_print::print::discovery::count_use;
use spirt_print::print::plan::{merge_into, move_root_last};
use spirt_print::print::{CxInterned, Node, Use, UseMap};

fn ty(i: u32) -> Use {
    Use::CxInterned(CxInterned::Type(Type(i)))
}

#[test]
fn use_map_keeps_the_order_of_insertion() {
    let mut map: UseMap<usize> = UseMap::new();
    assert_eq!(map.len(), 0);
    assert_eq!(map.find(ty(1)), None);
    map.push(ty(1), 10);
    map.push(ty(0), 20);
    map.push(Use::DataInstOutput(DataInst(0)), 30);
    assert_eq!(map.len(), 3);
    assert_eq!(map.find(ty(0)), Some(1));
    assert_eq!(map.get(ty(0)), Some(20));
    assert_eq!(map.get(ty(7)), None);
    assert_eq!(map.key_at(2), Use::DataInstOutput(DataInst(0)));
    map.set_value(1, 21);
    assert_eq!(map.value_at(1), 21);
    assert_eq!(map.remove(0), (ty(1), 10));
    assert_eq!(map.find(ty(0)), Some(0));
    assert_eq!(map.len(), 2);
}

#[test]
fn counting_a_use_adds_one_or_enters_it_last() {
    let mut map: UseMap<usize> = UseMap::new();
    count_use(&mut map, ty(0));
    count_use(&mut map, ty(1));
    count_use(&mut map, ty(0));
    assert_eq!(map.get(ty(0)), Some(2));
    assert_eq!(map.get(ty(1)), Some(1));
    assert_eq!(map.find(ty(1)), Some(1));
    map.set_value(0, usize::MAX);
    count_use(&mut map, ty(0));
    assert_eq!(map.get(ty(0)), Some(usize::MAX));
}

#[test]
fn merging_keeps_places_and_takes_the_larger_count() {
    let mut acc: UseMap<usize> = UseMap::new();
    acc.push(ty(0), 3);
    acc.push(Use::Node(Node::Root), 1);
    acc.push(ty(1), 1);
    let mut new: UseMap<usize> = UseMap::new();
    new.push(ty(2), 4);
    new.push(ty(1), 5);
    new.push(ty(0), 1);
    new.push(Use::Node(Node::Root), 1);
    merge_into(&mut acc, &new);
    let entries: Vec<(Use, usize)> = (0..acc.len()).map(|i| (acc.key_at(i), acc.value_at(i))).collect();
    assert_eq!(
        entries,
        vec![(ty(0), 3), (Use::Node(Node::Root), 1), (ty(1), 5), (ty(2), 4)]
    );
    move_root_last(&mut acc);
    let keys: Vec<Use> = (0..acc.len()).map(|i| acc.key_at(i)).collect();
    assert_eq!(keys, vec![ty(0), ty(1), ty(2), Use::Node(Node::Root)]);
    move_root_last(&mut acc);
    assert_eq!(acc.find(Use::Node(Node::Root)), Some(3));
    let mut rootless: UseMap<usize> = UseMap::new();
    rootless.push(ty(0), 1);
    move_root_last(&mut rootless);
    assert_eq!(rootless.len(), 1);
}

#[test]
fn categories_name_the_kinds_of_uses() {
    assert_eq!(Node::Root.category(), Err("Node::Root"));
    assert_eq!(Node::AllCxInterned.category(), Err("Node::AllCxInterned"));
    assert_eq!(Node::ModuleDialect.category(), Ok("module.dialect"));
    assert_eq!(Node::ModuleDebugInfo.category(), Ok("module.debug_info"));
    assert_eq!(Node::Func(Func(3)).category(), Ok("func"));
    assert_eq!(ty(0).category(), "type");
    assert_eq!(Use::CxInterned(CxInterned::Const(Const(1))).category(), "const");
    assert_eq!(CxInterned::AttrSet(spirt_print::ir::AttrSet(0)).category(), "attrs");
    assert_eq!(Use::DataInstOutput(DataInst(0)).category(), "v");
    assert_eq!(Use::ControlRegionLabel(spirt_print::ir::ControlRegion(0)).category(), "label");
    assert_eq!(
        Use::from_value(spirt_print::ir::Value::Const(Const(4))),
        Use::CxInterned(CxInterned::Const(Const(4)))
    );
    assert_eq!(
        Use::from_value(spirt_print::ir::Value::DataInstOutput(DataInst(2))),
        Use::DataInstOutput(DataInst(2))
    );
    assert_eq!(Node::Root.get_key(), 0);
    assert_eq!(Node::GlobalVar(spirt_print::ir::GlobalVar(3)).get_key(), 10);
    assert_eq!(Node::Func(Func(3)).get_key(), 11);
    assert_eq!(Node::Func(Func(u32::MAX)).get_key(), 8589934595);
}

#[test]
fn codes_tell_uses_apart() {
    let uses = vec![
        Use::Node(Node::Root),
        Use::Node(Node::AllCxInterned),
        Use::Node(Node::ModuleDialect),
        Use::Node(Node::ModuleDebugInfo),
        Use::Node(Node::GlobalVar(spirt_print::ir::GlobalVar(0))),
        Use::Node(Node::Func(Func(0))),
        Use::CxInterned(CxInterned::AttrSet(spirt_print::ir::AttrSet(0))),
        ty(0),
        Use::CxInterned(CxInterned::Const(Const(0))),
        Use::ControlRegionLabel(spirt_print::ir::ControlRegion(0)),
        Use::ControlRegionInput { region: spirt_print::ir::ControlRegion(0), input_idx: 0 },
        Use::ControlRegionInput { region: spirt_print::ir::ControlRegion(0), input_idx: 1 },
        Use::ControlRegionInput { region: spirt_print::ir::ControlRegion(1), input_idx: 0 },
        Use::ControlNodeOutput { control_node: spirt_print::ir::ControlNode(0), output_idx: 0 },
        Use::DataInstOutput(DataInst(0)),
        Use::DataInstOutput(DataInst(u32::MAX)),
    ];
    for (i, a) in uses.iter().enumerate() {
        for (j, b) in uses.iter().enumerate() {
            assert_eq!(a.get_code() == b.get_code(), i == j);
        }
    }
    assert_eq!(
        Use::ControlRegionInput { region: spirt_print::ir::ControlRegion(1), input_idx: 2 }
            .get_code(),
        (7u128 << 64) + (1u128 << 32) + 2
    );
    assert_eq!(Use::from(spirt_print::ir::Value::Const(Const(3))), Use::CxInterned(CxInterned::Const(Const(3))));
}

#[test]
fn a_large_map_finds_every_key() {
    let mut map: UseMap<usize> = UseMap::new();
    for i in 0..2000u32 {
        map.push(ty(i), i as usize);
    }
    for i in 0..2000u32 {
        assert_eq!(map.find(ty(i)), Some(i as usize));
    }
    map.remove(0);
    for i in 1..2000u32 {
        assert_eq!(map.find(ty(i)), Some(i as usize - 1));
    }
    assert_eq!(map.find(ty(0)), None);
}
