//! The generator: deterministic naming, shape rejection, artifact derivation.

use checked_builder::generator::ForwardRule;
use checked_builder::generator::derive_checked_builder;
use checked_builder::generator::forwarding_rules;
use checked_builder::model::AggregateDecl;
use checked_builder::model::DataShape;
use checked_builder::model::FieldDecl;
use checked_builder::model::FieldsShape;
use checked_builder::model::GenError;
use checked_builder::model::validate;
use checked_builder::names::builder_state_name;
use checked_builder::names::builder_trait_name;
use checked_builder::names::getter_method_name;
use checked_builder::names::getter_trait_name;
use checked_builder::names::initial_state_name;
use checked_builder::names::module_name;
use checked_builder::names::setter_trait_name;
use checked_builder::names::state_trait_name;

fn field(name: &str, ty: &str) -> FieldDecl {
    FieldDecl { name: Some(name.to_owned()), ty: ty.to_owned() }
}

fn config_decl() -> AggregateDecl {
    AggregateDecl {
        name: "Config".to_owned(),
        data: DataShape::Record(FieldsShape::Named(vec![
            field("enable_logging", "String"),
            field("enable_tracing", "bool"),
            field("host", "String"),
            field("port", "u16"),
        ])),
    }
}

#[test]
fn deterministic_names() {
    assert_eq!(state_trait_name("Config"), "ConfigBuilderState");
    assert_eq!(initial_state_name("Config"), "ConfigBuilderInitialState");
    assert_eq!(
        builder_state_name("Config", "enable_logging"),
        "ConfigBuilderEnableLoggingState"
    );
    assert_eq!(
        setter_trait_name("Config", "enable_logging"),
        "ConfigBuilderEnableLoggingSetter"
    );
    assert_eq!(getter_trait_name("Config", "enable_tracing"), "ConfigBuilderEnableTracing");
    assert_eq!(getter_method_name("host"), "get_host");
    assert_eq!(builder_trait_name("Config"), "ConfigBuilder");
    assert_eq!(module_name("Config"), "config_builder");
    assert_eq!(module_name("ServerConfig"), "server_config_builder");
}

#[test]
fn one_capability_pair_per_field() {
    let artifacts = derive_checked_builder(&config_decl()).unwrap();
    assert_eq!(artifacts.fields.len(), 4);
    let names: Vec<&str> = artifacts.fields.iter().map(|f| f.field_name.as_str()).collect();
    assert_eq!(names, vec!["enable_logging", "enable_tracing", "host", "port"]);
    for f in &artifacts.fields {
        assert!(f.setter_name.ends_with("Setter"));
        assert!(f.setter_name.starts_with("ConfigBuilder"));
        assert!(f.getter_name.starts_with("ConfigBuilder"));
    }
    let setters: Vec<&String> = artifacts.fields.iter().map(|f| &f.setter_name).collect();
    let getters: Vec<&String> = artifacts.fields.iter().map(|f| &f.getter_name).collect();
    for i in 0..setters.len() {
        for j in 0..setters.len() {
            if i != j {
                assert_ne!(setters[i], setters[j]);
                assert_ne!(getters[i], getters[j]);
            }
        }
    }
    assert_eq!(artifacts.fields[1].state_name, "ConfigBuilderEnableTracingState");
    assert_eq!(artifacts.fields[3].getter_method, "get_port");
    assert_eq!(artifacts.state_trait, "ConfigBuilderState");
    assert_eq!(artifacts.initial_state, "ConfigBuilderInitialState");
}

#[test]
fn forwarding_covers_every_ordered_pair() {
    let rules = forwarding_rules(4);
    assert_eq!(rules.len(), 12);
    for g in 0..4 {
        for f in 0..4 {
            if g != f {
                assert!(rules.contains(&ForwardRule { host: g, getter: f }));
            }
        }
    }
    for r in &rules {
        assert_ne!(r.host, r.getter);
    }
    assert_eq!(forwarding_rules(0).len(), 0);
    assert_eq!(forwarding_rules(1).len(), 0);
    assert_eq!(forwarding_rules(2).len(), 2);
}

#[test]
fn tuple_struct_rejected() {
    let decl = AggregateDecl {
        name: "Pair".to_owned(),
        data: DataShape::Record(FieldsShape::Unnamed),
    };
    let err = derive_checked_builder(&decl).unwrap_err();
    assert_eq!(err, GenError::TupleStruct);
    assert_eq!(err.message(), "CheckedBuilder isn't support tuple structs");
}

#[test]
fn no_field_record_rejected() {
    // A record with an empty named-field list declares no fields: it earns
    // the same fixed diagnostic as a record with no field list at all.
    let decl = AggregateDecl {
        name: "Empty".to_owned(),
        data: DataShape::Record(FieldsShape::Named(vec![])),
    };
    let err = derive_checked_builder(&decl).unwrap_err();
    assert_eq!(err, GenError::UnitStruct);
    assert_eq!(err.message(), "CheckedBuilder isn't support unit structs");
    assert!(validate(&decl).is_err());
}

#[test]
fn unit_struct_rejected() {
    let decl = AggregateDecl { name: "Unit".to_owned(), data: DataShape::Record(FieldsShape::Unit) };
    let err = derive_checked_builder(&decl).unwrap_err();
    assert_eq!(err, GenError::UnitStruct);
    assert_eq!(err.message(), "CheckedBuilder isn't support unit structs");
}

#[test]
fn enum_rejected() {
    let decl = AggregateDecl { name: "Choice".to_owned(), data: DataShape::Sum };
    let err = derive_checked_builder(&decl).unwrap_err();
    assert_eq!(err, GenError::Enum);
    assert_eq!(err.message(), "CheckedBuilder isn't support enums");
}

#[test]
fn union_rejected() {
    let decl = AggregateDecl { name: "Raw".to_owned(), data: DataShape::Union };
    let err = derive_checked_builder(&decl).unwrap_err();
    assert_eq!(err, GenError::Union);
    assert_eq!(err.message(), "CheckedBuilder isn't support unions");
}

#[test]
fn nameless_field_rejected() {
    let decl = AggregateDecl {
        name: "Odd".to_owned(),
        data: DataShape::Record(FieldsShape::Named(vec![
            field("first", "u8"),
            FieldDecl { name: None, ty: "u8".to_owned() },
        ])),
    };
    let err = derive_checked_builder(&decl).unwrap_err();
    assert_eq!(err, GenError::NamelessField);
    assert_eq!(err.message(), "CheckedBuilder don't support nameless fields");
}

#[test]
fn validate_keeps_fields_in_order() {
    let model = validate(&config_decl()).unwrap();
    assert_eq!(model.name, "Config");
    assert_eq!(model.fields.len(), 4);
    assert_eq!(model.fields[0].name, "enable_logging");
    assert_eq!(model.fields[0].ty, "String");
    assert_eq!(model.fields[3].name, "port");
    assert_eq!(model.fields[3].ty, "u16");
}

#[test]
fn pascal_casing_reshapes_identifiers() {
    // The state name embeds the Pascal-case form of the field, not the raw
    // identifier.
    let name = builder_state_name("App", "retry_count");
    assert_eq!(name, "AppBuilderRetryCountState");
    assert_ne!(name, "AppBuilderretry_countState");
}

#[test]
fn pascal_casing_can_collide() {
    // Two distinct raw field names can share one Pascal-case rendering, and
    // then their capability names collide: distinctness of the generated
    // names is owed only when the renderings are pairwise distinct.
    assert_eq!(
        setter_trait_name("Config", "a_b"),
        setter_trait_name("Config", "aB")
    );
}
