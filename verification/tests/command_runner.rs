use shield_cli::error::ShieldError;
use shield_cli::runner::{command_parts, exit_code, to_decrypted};
use shield_cli::sorted_map::SortedMap;

#[test]
fn command_line_splits_into_program_and_arguments() {
    let (program, args) =
        command_parts(&vec!["sh".to_string(), "-c".to_string(), "echo hi".to_string()]).unwrap();
    assert_eq!(program, "sh");
    assert_eq!(args, vec!["-c".to_string(), "echo hi".to_string()]);
    let (program, args) = command_parts(&vec!["env".to_string()]).unwrap();
    assert_eq!(program, "env");
    assert!(args.is_empty());
}

#[test]
fn empty_command_is_refused() {
    let error = command_parts(&Vec::new()).unwrap_err();
    assert!(matches!(error, ShieldError::NoCommand));
    assert_eq!(error.message(), "no command provided");
}

#[test]
fn decrypted_secrets_keep_the_values() {
    let mut values = SortedMap::new();
    values.insert("DATABASE_URL".to_string(), "postgres://local".to_string());
    let secrets = to_decrypted(values);
    assert_eq!(secrets.values.get("DATABASE_URL"), Some(&"postgres://local".to_string()));
}

#[test]
fn exit_code_defaults_to_one() {
    assert_eq!(exit_code(Some(0)), 0);
    assert_eq!(exit_code(Some(3)), 3);
    assert_eq!(exit_code(None), 1);
}
