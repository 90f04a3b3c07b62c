use pipec::astring::{AString, AStringError};

#[test]
fn test_str() -> Result<(), AStringError> {
    let mut string = AString::<100>::new();
    string.push('h')?;
    string.push('e')?;
    string.push('l')?;
    string.push('l')?;
    string.push('o')?;
    string.push_str(" world!")?;
    println!("{}", string.as_str());
    assert_eq!("hello world!", string.as_str());
    Ok(())
}

#[test]
fn different_size_same_contents() -> Result<(), AStringError> {
    let mut s1 = AString::<100>::new();
    let mut s2 = AString::<50>::new();
    s1.push_str("hello world!")?;
    s2.push_str("hello world!")?;
    assert_eq!(s1.as_str(), s2.as_str());
    Ok(())
}

#[test]
fn filled_string_refuses_push() {
    let mut s = AString::<3>::new();
    s.push_str("abc").unwrap();
    assert!(matches!(s.push('d'), Err(AStringError::BufFilled)));
    assert!(matches!(s.push_str("e"), Err(AStringError::BufFilled)));
    assert_eq!(s.as_str(), "abc");
}
