use rain::Graph;
use rand::RngExt;

const WIDTH: Option<u16> = Some(80);

#[test]
fn add_remove_success_1() {
    let mut out = String::new();
    let mut graph = Graph::new();
    assert!(graph.add("Line 1", 0).is_ok());
    assert!(graph.print(WIDTH, &mut out).is_ok());
    assert!(graph.add("Line 2", 0).is_ok());
    assert!(graph.print(WIDTH, &mut out).is_ok());
    assert!(graph.add("Line 3", 0).is_ok());
    assert!(graph.print(WIDTH, &mut out).is_ok());
    assert!(graph.remove("Line 2").is_ok());
    assert!(graph.print(WIDTH, &mut out).is_ok());
    assert!(graph.add("Line 3", 0).is_ok());
    assert!(graph.print(WIDTH, &mut out).is_ok());
    assert!(graph.add("Line 4", 0).is_ok());
    assert!(graph.print(WIDTH, &mut out).is_ok());
    assert!(graph.add("Line 3", 0).is_ok());
    assert!(graph.print(WIDTH, &mut out).is_ok());
    assert!(graph.remove("Line 1").is_ok());
    assert!(graph.print(WIDTH, &mut out).is_ok());
    assert!(graph.add("Line 3", 0).is_ok());
    assert!(graph.print(WIDTH, &mut out).is_ok());
    assert!(graph.add("Line 1", 0).is_ok());
    assert!(graph.print(WIDTH, &mut out).is_ok());
    assert_eq!(out.lines().count(), 10);
}

#[test]
fn add_remove_success_2() {
    let mut out = String::new();
    let mut graph = Graph::new();
    for i in 1..50 {
        if i > 25 {
            assert!(graph.remove(&(i - 25).to_string()).is_ok());
        }
        assert!(graph.add(&i.to_string(), i).is_ok());
    }
    for _ in 0..5 {
        assert!(graph.print(WIDTH, &mut out).is_ok());
    }
}

#[test]
fn add_remove_success_3() {
    let mut out = String::new();
    let mut graph = Graph::new();
    assert!(graph.add("0", 100).is_ok());
    for i in 1..101 {
        assert!(graph.add("0", i).is_ok());
        assert!(graph.print(WIDTH, &mut out).is_ok());
    }
    assert!(graph.remove("0").is_ok());
    assert!(graph.print(WIDTH, &mut out).is_ok());
}

#[test]
fn add_remove_success_4() {
    let mut out = String::new();
    let mut graph = Graph::new();
    let l1 = "Line 1";
    let l2 = "Line 2";
    assert!(graph.add(l1, 0).is_ok());
    assert!(graph.add(l2, 0).is_ok());
    for _ in 0..3 {
        assert!(graph.print(WIDTH, &mut out).is_ok());
    }
    for _ in 0..3 {
        assert!(graph.add(l2, 0).is_ok());
        assert!(graph.print(WIDTH, &mut out).is_ok());
    }
    for _ in 0..3 {
        assert!(graph.add(l1, 0).is_ok());
        assert!(graph.print(WIDTH, &mut out).is_ok());
    }
    assert!(graph.remove(l1).is_ok());
    assert!(graph.remove(l2).is_ok());
    assert!(graph.print(WIDTH, &mut out).is_ok());
}

#[test]
fn print_long_prefix_success() {
    let mut out = String::new();
    let mut graph = Graph::with_prefix_length(18);
    assert!(graph.add("Line 1", 0).is_ok());
    assert!(graph.print(WIDTH, &mut out).is_ok());
    assert!(graph.add("A very long prefix", 0).is_ok());
    assert!(graph.print(WIDTH, &mut out).is_ok());
}

#[test]
fn print_if_new_data_success() {
    let mut out = String::new();
    let mut graph = Graph::new();
    let l1 = "Line 1";
    let l2 = "Line 2";

    assert!(graph.add(l1, 0).is_ok());
    assert!(graph.add(l2, 0).is_ok());
    assert_eq!(graph.print_if_new_data(WIDTH, &mut out).unwrap(), true);
    assert_eq!(graph.print_if_new_data(WIDTH, &mut out).unwrap(), false);

    assert!(graph.remove(l2).is_ok());
    assert_eq!(graph.print_if_new_data(WIDTH, &mut out).unwrap(), true);
    assert_eq!(graph.print_if_new_data(WIDTH, &mut out).unwrap(), false);

    assert!(graph.add(l2, 0).is_ok());
    assert_eq!(graph.print_if_new_data(WIDTH, &mut out).unwrap(), true);
    assert_eq!(graph.print_if_new_data(WIDTH, &mut out).unwrap(), false);
    assert_eq!(graph.print_if_new_data(WIDTH, &mut out).unwrap(), false);
}

#[test]
fn random_add_remove_success() {
    let mut out = String::new();
    let mut graph = Graph::new();
    let mut rng = rand::rng();

    for _ in 0..100 {
        let a: i32 = rng.random_range(0..10);
        let b: i32 = rng.random_range(0..10);

        if b % 3 == 0 {
            assert!(graph.add(&a.to_string(), b).is_ok());
        }

        if a % 3 == 0 {
            graph.remove(&b.to_string()).ok();
        }
        assert!(graph.print_if_new_data(WIDTH, &mut out).is_ok());
    }
}

#[test]
fn add_remove_success_signed_integer() {
    let mut out = String::new();
    let mut graph = Graph::new();
    let l1 = "L 1";
    let l2 = "L 2";
    let l3 = "Too long line 3";
    assert!(graph.add(l1, -10).is_ok());
    assert!(graph.print(WIDTH, &mut out).is_ok());
    assert!(graph.add(l2, 0).is_ok());
    assert!(graph.print(WIDTH, &mut out).is_ok());
    assert!(graph.add(l3, 10).is_ok());
    assert!(graph.print(WIDTH, &mut out).is_ok());
    assert!(graph.remove(l1).is_ok());
    assert!(graph.print(WIDTH, &mut out).is_ok());
    assert!(graph.remove(l2).is_ok());
    assert!(graph.print(WIDTH, &mut out).is_ok());
    assert!(graph.remove(l3).is_ok());
    assert!(graph.print(WIDTH, &mut out).is_ok());
}
