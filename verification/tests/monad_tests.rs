use towel::monad::Monad;

#[test]
fn vec_bind_flattens() {
    let v = vec![1, 2, 3];
    let r: Vec<i32> = v.bind(|x| vec![x, x]);
    assert_eq!(r, vec![1, 1, 2, 2, 3, 3]);
}

#[test]
fn vec_bind_empty() {
    let v: Vec<i32> = vec![];
    let r: Vec<i32> = v.bind(|x| vec![x, x]);
    assert_eq!(r, vec![]);
}

#[test]
fn vec_bind_uneven_parts() {
    let v = vec![1, 2, 3];
    let r: Vec<i32> = v.bind(|x| if x % 2 == 0 { vec![] } else { vec![x] });
    assert_eq!(r, vec![1, 3]);
}

fn greet(x: &'static str) -> Option<&'static str> {
    if x == "hello world" {
        Some("hello caller")
    } else {
        None
    }
}

#[test]
fn option_bind_some() {
    let o = Some("hello world");
    assert_eq!(o.bind(greet), Some("hello caller"));
}

#[test]
fn option_bind_some_to_none() {
    let p = Some("foo bar");
    assert_eq!(p.bind(greet), None);
}

#[test]
fn option_bind_none() {
    let n: Option<&'static str> = None;
    let r: Option<&'static str> = n.bind(|_x| panic!("must not be invoked"));
    assert_eq!(r, None);
}
