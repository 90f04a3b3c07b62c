use pipec::avec::{AVec, AVecError};

#[derive(Debug, PartialEq)]
struct Color(u8, u8, u8);

#[test]
fn test() -> Result<(), AVecError> {
    let mut vec: AVec<Color, 5> = AVec::new();
    vec.push(Color(255, 0, 0))?;
    vec.push(Color(255, 0, 0))?;
    vec.push(Color(255, 0, 0))?;
    assert_eq!(
        vec.as_slice(),
        &[Color(255, 0, 0), Color(255, 0, 0), Color(255, 0, 0)]
    );
    println!("{:?}", vec.as_slice());
    Ok(())
}

#[test]
fn filled_vec_refuses_push() {
    let mut vec: AVec<u8, 2> = AVec::new();
    assert!(vec.is_empty());
    vec.push(1).unwrap();
    vec.push(2).unwrap();
    assert!(matches!(vec.push(3), Err(AVecError::BufFilled)));
    assert_eq!(vec.len(), 2);
    assert_eq!(vec.take(0), Some(&1));
    assert_eq!(vec.take(2), None);
    let mut it = vec.iter();
    assert_eq!(it.next(), Some(&1));
    assert_eq!(it.next(), Some(&2));
    assert_eq!(it.next(), None);
}
