use petridish::config::{MultiSelect, PetridishConfig, Select};
use petridish::config2::{ConfigError, PromptConfig, PromptItem, PromptKind, Value};
use petridish::literal_value::LiteralTrue;

#[test]
fn validate_prompt_config() {
    let config = PromptConfig {
        prompts: vec![PromptItem {
            name: "your-name".to_string(),
            message: None,
            kind: PromptKind::Default { default: None },
        }],
        entry_dir: petridish::config2::default_entry_dir(),
    };
    match config.validate().err().unwrap() {
        ConfigError::ValidateFailed { field, error } => {
            assert_eq!(field, "name".to_string());
            assert_eq!(error, "must match '^[a-zA-Z_$][a-zA-Z_$0-9]*$'".to_string());
        }
        _ => unreachable!(),
    }
}

#[test]
fn validate_accepts_good_names() {
    let config = PromptConfig {
        prompts: vec![
            PromptItem {
                name: "your_name".to_string(),
                message: None,
                kind: PromptKind::Default { default: None },
            },
            PromptItem {
                name: "$var2".to_string(),
                message: None,
                kind: PromptKind::Default { default: None },
            },
        ],
        entry_dir: petridish::config2::default_entry_dir(),
    };
    assert!(config.validate().is_ok());
}

#[test]
fn validate_rejects_leading_digit() {
    let item = PromptItem {
        name: "1abc".to_string(),
        message: None,
        kind: PromptKind::Default { default: None },
    };
    assert!(item.validate().is_err());
}

#[test]
fn default_entry_dir_value() {
    assert_eq!(petridish::config2::default_entry_dir(), "{{ repo_name }}");
}

#[test]
fn petridish_config_defaults() {
    let config = PetridishConfig::default();
    assert_eq!(config.project_prompt, "project name?");
    assert_eq!(config.project_var_name, "project_name");
    assert!(config.short_description.is_none());
    assert!(config.long_description.is_none());
}

#[test]
fn select_default_index_finds_choice() {
    let select = Select::<String> {
        name: "var".to_string(),
        prompt: None,
        choices: vec!["a".to_string(), "b".to_string(), "c".to_string()],
        default: Some("b".to_string()),
    };
    assert_eq!(select.default_index(), 1);
}

#[test]
fn select_default_index_falls_back_to_zero() {
    let select = Select::<String> {
        name: "var".to_string(),
        prompt: None,
        choices: vec!["a".to_string(), "b".to_string()],
        default: Some("zzz".to_string()),
    };
    assert_eq!(select.default_index(), 0);
    let no_default = Select::<String> {
        name: "var".to_string(),
        prompt: None,
        choices: vec!["a".to_string(), "b".to_string()],
        default: None,
    };
    assert_eq!(no_default.default_index(), 0);
}

#[test]
fn multi_select_default_indexes() {
    let select = MultiSelect::<String> {
        multi: LiteralTrue,
        name: "hobbies".to_string(),
        prompt: None,
        choices: vec![
            "swimming".to_string(),
            "running".to_string(),
            "reading".to_string(),
        ],
        default: Some(vec!["reading".to_string(), "swimming".to_string()]),
        emptyable: false,
    };
    assert_eq!(select.default_indexes(), vec![0, 2]);
    let none = MultiSelect::<String> {
        multi: LiteralTrue,
        name: "hobbies".to_string(),
        prompt: None,
        choices: vec!["swimming".to_string()],
        default: None,
        emptyable: false,
    };
    assert_eq!(none.default_indexes(), Vec::<usize>::new());
}

#[test]
fn value_text_formats_numbers() {
    assert_eq!(Value::Number(0).text(), "0");
    assert_eq!(Value::Number(1234567890).text(), "1234567890");
    assert_eq!(Value::Number(-42).text(), "-42");
    assert_eq!(Value::Number(i64::MIN).text(), "-9223372036854775808");
    assert_eq!(Value::String("hello".to_string()).text(), "hello");
}
