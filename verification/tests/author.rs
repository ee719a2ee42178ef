use citemark::author::author;
use citemark::author::Author;

#[test]
fn no_space() {
    let input = b"given>Fulano de,family>Tal".to_vec();

    let (parsed, pos) = author(&input, 0).unwrap();

    assert_eq!(
        parsed,
        Author { family: b"Tal".to_vec(), given: b"Fulano de".to_vec() }
    );

    assert!(pos == input.len());
}

#[test]
fn spaced() {
    let input = b"\n            given > Fulano de.\n            family > Tal.\n        ".to_vec();

    let (parsed, pos) = author(&input, 0).unwrap();

    assert_eq!(
        parsed,
        Author { family: b"Tal".to_vec(), given: b"Fulano de".to_vec() }
    );

    assert!(pos < input.len());
}

#[test]
fn end_par() {
    let input = b"\n            given > Fulano de.\n            family > Tal\\par".to_vec();

    let (parsed, pos) = author(&input, 0).unwrap();

    assert_eq!(
        parsed,
        Author { family: b"Tal".to_vec(), given: b"Fulano de".to_vec() }
    );

    assert_eq!(&input[pos..], b"\\par");
}

#[test]
fn order_is_irrelevant() {
    let forward = b"given>Fulano de,family>Tal.".to_vec();
    let reversed = b"family>Tal,given>Fulano de.".to_vec();

    let (a1, p1) = author(&forward, 0).unwrap();
    let (a2, p2) = author(&reversed, 0).unwrap();

    assert_eq!(a1, a2);
    assert_eq!(a1.given, b"Fulano de".to_vec());
    assert_eq!(a1.family, b"Tal".to_vec());
    assert!(p1 == forward.len());
    assert!(p2 == reversed.len());
}

#[test]
fn two_given_parts_fail() {
    let input = b"given>A,given>B".to_vec();

    assert!(author(&input, 0).is_none());
}

#[test]
fn lone_part_fails() {
    let input = b"given>A".to_vec();

    assert!(author(&input, 0).is_none());
}
