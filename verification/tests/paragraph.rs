use citemark::paragraph::paragraph;

#[test]
fn simple_paragraph() {
    let input = b"25 \\par".to_vec();

    let (par, pos) = paragraph(&input, 0);

    assert!(pos == input.len());
    assert_eq!(par, b"25 ".to_vec());
}

#[test]
fn no_par() {
    let input = b"25 ".to_vec();

    let (par, pos) = paragraph(&input, 0);

    assert_eq!(par, b"25 ".to_vec());
    assert!(pos == input.len());
}

#[test]
fn empty() {
    let input = b"    \\par".to_vec();

    let (par, pos) = paragraph(&input, 0);

    assert!(pos == input.len());
    assert_eq!(par, b"".to_vec());
}

#[test]
fn eof() {
    let input = b"2022".to_vec();

    let (year, pos) = paragraph(&input, 0);

    assert!(pos == input.len());
    assert_eq!(year, b"2022".to_vec());
}

#[test]
fn terminator_is_discarded() {
    let input = b"body\\parrest".to_vec();

    let (par, pos) = paragraph(&input, 0);

    assert_eq!(par, b"body".to_vec());
    assert_eq!(&input[pos..], b"rest");
}
