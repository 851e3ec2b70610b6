use tof::{Variable, Vars};

fn name(text: &str) -> String {
    text.to_string()
}

#[test]
fn new_environment_has_one_empty_frame() {
    let vars = Vars::new();
    assert_eq!(vars.depth(), 1);
    assert_eq!(vars.get("x"), None);
}

#[test]
fn insert_then_get_returns_the_value() {
    let mut vars = Vars::new();
    vars.insert(name("x"), Variable::Int(7));
    assert_eq!(vars.get("x"), Some(&Variable::Int(7)));
    assert_eq!(vars.get("y"), None);
}

#[test]
fn insert_overwrites_in_the_same_frame() {
    let mut vars = Vars::new();
    vars.insert(name("x"), Variable::Int(1));
    vars.insert(name("y"), Variable::Str(name("keep")));
    vars.insert(name("x"), Variable::Int(2));
    assert_eq!(vars.get("x"), Some(&Variable::Int(2)));
    assert_eq!(vars.get("y"), Some(&Variable::Str(name("keep"))));
    assert_eq!(vars.depth(), 1);
}

#[test]
fn inner_frame_shadows_outer_until_popped() {
    let mut vars = Vars::new();
    vars.insert(name("x"), Variable::Int(0));
    vars.push();
    vars.insert(name("x"), Variable::Int(1));
    assert_eq!(vars.get("x"), Some(&Variable::Int(1)));
    vars.pop();
    assert_eq!(vars.get("x"), Some(&Variable::Int(0)));
}

#[test]
fn lookup_falls_through_to_outer_frames() {
    let mut vars = Vars::new();
    vars.insert(name("outer"), Variable::Str(name("o")));
    vars.push();
    vars.insert(name("inner"), Variable::Int(3));
    assert_eq!(vars.get("outer"), Some(&Variable::Str(name("o"))));
    assert_eq!(vars.get("inner"), Some(&Variable::Int(3)));
    vars.pop();
    assert_eq!(vars.get("inner"), None);
    assert_eq!(vars.get("outer"), Some(&Variable::Str(name("o"))));
}

#[test]
fn insert_in_inner_frame_leaves_outer_binding() {
    let mut vars = Vars::new();
    vars.insert(name("x"), Variable::Int(10));
    vars.push();
    vars.push();
    vars.insert(name("x"), Variable::Int(30));
    assert_eq!(vars.depth(), 3);
    vars.pop();
    assert_eq!(vars.get("x"), Some(&Variable::Int(10)));
    vars.pop();
    assert_eq!(vars.get("x"), Some(&Variable::Int(10)));
}

#[test]
fn pop_never_removes_the_last_frame() {
    let mut vars = Vars::new();
    vars.insert(name("x"), Variable::Int(5));
    vars.pop();
    assert_eq!(vars.depth(), 1);
    assert_eq!(vars.get("x"), Some(&Variable::Int(5)));
    vars.insert(name("y"), Variable::Void);
    assert_eq!(vars.get("y"), Some(&Variable::Void));
}

#[test]
fn push_and_pop_are_balanced() {
    let mut vars = Vars::new();
    vars.push();
    vars.push();
    assert_eq!(vars.depth(), 3);
    vars.pop();
    assert_eq!(vars.depth(), 2);
    vars.pop();
    assert_eq!(vars.depth(), 1);
}

#[test]
fn clone_is_independent_of_its_source() {
    let mut vars = Vars::new();
    vars.insert(name("x"), Variable::Int(1));
    vars.push();
    vars.insert(name("y"), Variable::Str(name("s")));
    let mut copy = vars.clone();
    assert_eq!(copy.depth(), 2);
    assert_eq!(copy.get("x"), Some(&Variable::Int(1)));
    assert_eq!(copy.get("y"), Some(&Variable::Str(name("s"))));
    copy.insert(name("y"), Variable::Int(2));
    assert_eq!(vars.get("y"), Some(&Variable::Str(name("s"))));
    assert_eq!(copy.get("y"), Some(&Variable::Int(2)));
}

#[test]
fn names_are_compared_whole() {
    let mut vars = Vars::new();
    vars.insert(name("ab"), Variable::Int(1));
    assert_eq!(vars.get("a"), None);
    assert_eq!(vars.get("abc"), None);
    assert_eq!(vars.get(""), None);
    assert_eq!(vars.get("ab"), Some(&Variable::Int(1)));
}
