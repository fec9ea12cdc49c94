use image_prediction::registry::{Config, LoadError, Model, ModelRegistry};

fn model(name: &str, version: u32, input_name: &str) -> Model {
    Model { name: name.to_string(), version, input_name: input_name.to_string() }
}

fn two_models() -> ModelRegistry {
    let config = Config { models: vec![model("model1", 1, "input1"), model("model2", 2, "input2")] };
    match ModelRegistry::load(config) {
        Ok(r) => r,
        Err(_) => panic!("a source with unique names must load"),
    }
}

#[test]
fn test_duplicate_model_names() {
    let config = Config { models: vec![model("model1", 1, "input1"), model("model1", 2, "input2")] };
    let result = ModelRegistry::load(config);
    assert!(result.is_err());
}

#[test]
fn test_valid_yaml() {
    let registry = two_models();
    assert_eq!(registry.len(), 2);
    let m1 = registry.resolve("model1").unwrap();
    assert_eq!((m1.name.as_str(), m1.version, m1.input_name.as_str()), ("model1", 1, "input1"));
    let m2 = registry.resolve("model2").unwrap();
    assert_eq!((m2.name.as_str(), m2.version, m2.input_name.as_str()), ("model2", 2, "input2"));
}

#[test]
fn resolve_unknown_name_is_none() {
    let registry = two_models();
    assert!(registry.resolve("unknown").is_none());
    assert!(registry.resolve("").is_none());
    assert!(registry.resolve("model").is_none());
    assert!(registry.resolve("model12").is_none());
}

#[test]
fn identical_duplicates_fail_and_name_the_model() {
    let config = Config { models: vec![model("a", 1, "x"), model("b", 1, "x"), model("a", 1, "x")] };
    match ModelRegistry::load(config) {
        Err(e) => {
            let LoadError::DuplicateName { name } = &e;
            assert_eq!(name, "a");
            assert_eq!(e.message(), "Duplicate model name: a");
        }
        Ok(_) => panic!("a repeated name must fail"),
    }
}

#[test]
fn empty_source_loads_empty_registry() {
    let registry = ModelRegistry::load(Config { models: vec![] }).ok().unwrap();
    assert_eq!(registry.len(), 0);
    assert!(registry.resolve("model1").is_none());
}
