use slurm_profile::profile::{Memory, Profile};

fn strings(items: &[&str]) -> Vec<String> {
    items.iter().map(|s| s.to_string()).collect()
}

fn empty() -> Profile {
    Profile { cpu: None, gpu: None, mem: None, partition: None, nodes: vec![], command: vec![] }
}

fn full() -> Profile {
    Profile {
        cpu: Some(4),
        gpu: Some(2),
        mem: Some(Memory::GB(16)),
        partition: Some("long".to_string()),
        nodes: strings(&["n1", "n2"]),
        command: strings(&["python", "train.py"]),
    }
}

#[test]
fn overwrite_with_nothing_keeps_the_base() {
    assert_eq!(full().overwrite(empty()), full());
}

#[test]
fn overwrite_of_nothing_gives_the_override() {
    assert_eq!(empty().overwrite(full()), full());
}

#[test]
fn overwrite_of_two_empty_profiles_is_empty() {
    assert_eq!(empty().overwrite(empty()), empty());
}

#[test]
fn overwrite_takes_each_present_scalar_from_the_override() {
    let over = Profile {
        cpu: Some(8),
        gpu: Some(0),
        mem: Some(Memory::MB(512)),
        partition: Some("short".to_string()),
        nodes: vec![],
        command: vec![],
    };
    let merged = full().overwrite(over);
    assert_eq!(merged.cpu, Some(8));
    assert_eq!(merged.gpu, Some(0));
    assert_eq!(merged.mem, Some(Memory::MB(512)));
    assert_eq!(merged.partition, Some("short".to_string()));
    assert_eq!(merged.nodes, strings(&["n1", "n2"]));
    assert_eq!(merged.command, strings(&["python", "train.py"]));
}

#[test]
fn overwrite_decides_each_scalar_on_its_own() {
    let mut over = empty();
    over.cpu = Some(1);
    let merged = full().overwrite(over);
    assert_eq!(merged.cpu, Some(1));
    assert_eq!(merged.gpu, Some(2));
    assert_eq!(merged.mem, Some(Memory::GB(16)));
    assert_eq!(merged.partition, Some("long".to_string()));

    let mut over = empty();
    over.mem = Some(Memory::KB(1));
    let merged = full().overwrite(over);
    assert_eq!(merged.cpu, Some(4));
    assert_eq!(merged.mem, Some(Memory::KB(1)));

    let mut base = empty();
    base.gpu = Some(3);
    let mut over = empty();
    over.partition = Some("p".to_string());
    let merged = base.overwrite(over);
    assert_eq!(merged.cpu, None);
    assert_eq!(merged.gpu, Some(3));
    assert_eq!(merged.mem, None);
    assert_eq!(merged.partition, Some("p".to_string()));
}

#[test]
fn overwrite_takes_a_nonempty_list_from_the_override() {
    let mut over = empty();
    over.nodes = strings(&["n9"]);
    over.command = strings(&["ls"]);
    let merged = full().overwrite(over);
    assert_eq!(merged.nodes, strings(&["n9"]));
    assert_eq!(merged.command, strings(&["ls"]));
    assert_eq!(merged.cpu, Some(4));
}

#[test]
fn overwrite_cannot_clear_a_list() {
    let mut over = empty();
    over.nodes = vec![];
    let merged = full().overwrite(over);
    assert_eq!(merged.nodes, strings(&["n1", "n2"]));

    let mut base = empty();
    base.command = strings(&["a"]);
    let mut over = empty();
    over.nodes = strings(&["n3"]);
    let merged = base.overwrite(over);
    assert_eq!(merged.nodes, strings(&["n3"]));
    assert_eq!(merged.command, strings(&["a"]));
}
