use passe::config::DomainConfig;
use passe::error::Error;
use passe::password::{generate, Domain, Password};

#[test]
pub fn test_sample() {
    let generated = generate(
        Domain("example.org"),
        Password("secret"),
        DomainConfig::default().with_length(10),
    )
    .unwrap();
    assert_eq!(generated, "tYb1lyMQLA");
}

#[test]
fn generate_is_deterministic() {
    let a = generate(
        Domain("deterministic.test"),
        Password("master password"),
        DomainConfig::default().with_length(12),
    )
    .unwrap();
    let b = generate(
        Domain("deterministic.test"),
        Password("master password"),
        DomainConfig::default().with_length(12),
    )
    .unwrap();
    assert_eq!(a, b);
}

#[test]
fn generate_respects_length() {
    for len in [4usize, 8, 10, 16, 24] {
        let p = generate(
            Domain("length.test"),
            Password("secret"),
            DomainConfig::default().with_length(len),
        )
        .unwrap();
        assert_eq!(p.chars().count(), len);
    }
}

#[test]
fn generate_output_is_valid() {
    let p = generate(
        Domain("validity.test"),
        Password("another secret"),
        DomainConfig::default().with_length(14),
    )
    .unwrap();
    let chars: Vec<char> = p.chars().collect();
    assert!(chars[0].is_ascii_lowercase());
    assert!(chars.iter().any(|c| c.is_ascii_uppercase()));
    assert!(chars.iter().any(|c| c.is_ascii_digit()));
    assert!(chars.iter().all(|c| c.is_ascii_alphanumeric()));
}

#[test]
fn generate_uses_suffix() {
    let plain = generate(
        Domain("suffix.test"),
        Password("secret"),
        DomainConfig::default().with_length(10),
    )
    .unwrap();
    let mut config = DomainConfig::default().with_length(10);
    config.suffix = Some(String::from("pepper"));
    let seasoned = generate(Domain("suffix.test"), Password("secret"), config).unwrap();
    assert_ne!(plain, seasoned);
}

#[test]
fn impossible_length_fails_fatally() {
    // One character cannot be a lower-case letter and contain an
    // upper-case letter and a digit, so no round can ever validate.
    let r = generate(
        Domain("example.org"),
        Password("secret"),
        DomainConfig::default().with_length(1),
    );
    assert!(matches!(r, Err(Error::ValidationFailure)));
}

#[test]
fn zero_length_fails_fatally() {
    let r = generate(
        Domain("example.org"),
        Password("secret"),
        DomainConfig::default().with_length(0),
    );
    assert!(matches!(r, Err(Error::ValidationFailure)));
}
