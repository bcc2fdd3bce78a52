use sim::models::{DevsModel, Model, ModelFailure, ModelMessage, ModelRecord, Reportable};
use sim::report::Report;
use sim::simulator::coupling::clone_messages;
use sim::simulator::{Connector, Message, ModelCollection, Services, Simulation};
use sim::text::str_eq;
use sim::utils::errors::{join_with_commas, SimulationError};
use sim::Time;
use std::hash::{Hash, Hasher};

/// A model that does nothing.
#[derive(Clone, Debug, PartialEq)]
struct Idle {
    name: String,
    records: Vec<ModelRecord>,
}

impl Idle {
    fn named(name: &str) -> Idle {
        Idle { name: name.to_string(), records: Vec::new() }
    }
}

impl DevsModel for Idle {
    type Rng = u64;
    type State = ();

    fn events_ext(&mut self, _: &ModelMessage, _: &mut Services<u64>) -> Result<(), ModelFailure> {
        Ok(())
    }

    fn events_int(&mut self, _: &mut Services<u64>) -> Result<Vec<ModelMessage>, ModelFailure> {
        Ok(Vec::new())
    }

    fn time_advance(&mut self, _: Time) {}

    fn until_next_event(&self) -> Time {
        Time::Infinite
    }
}

impl Reportable for Idle {
    fn status(&self) -> String {
        format!("idle {}", self.name)
    }

    fn records(&self) -> &Vec<ModelRecord> {
        &self.records
    }
}

fn model(id: &str, name: &str) -> Model<Idle> {
    Model::new(id.to_string(), Idle::named(name))
}

fn connector(id: &str, source: &str, source_port: &str, target: &str, target_port: &str) -> Connector {
    Connector::new(
        id.to_string(),
        source.to_string(),
        target.to_string(),
        source_port.to_string(),
        target_port.to_string(),
    )
}

#[test]
fn time_is_ordered_with_infinity_last() {
    let one = Time::from_ticks(1);
    let two = Time::Finite(2);
    assert!(one.le(two) && one.lt(two) && !two.le(one) && !two.lt(one));
    assert!(one.le(one) && !one.lt(one));
    assert!(two.le(Time::Infinite) && two.lt(Time::Infinite));
    assert!(!Time::Infinite.le(two) && !Time::Infinite.lt(two));
    assert!(Time::Infinite.le(Time::Infinite) && !Time::Infinite.lt(Time::Infinite));
    assert!(one < two && two < Time::Infinite);
    assert_eq!(one.min(two), one);
    assert_eq!(two.min(one), one);
    assert_eq!(Time::Infinite.min(two), two);
    assert_eq!(two.min(Time::Infinite), two);
    assert_eq!(Time::Infinite.min(Time::Infinite), Time::Infinite);
}

#[test]
fn time_adds_up_and_saturates_at_infinity() {
    assert_eq!(Time::Finite(3).plus(Time::Finite(4)), Time::Finite(7));
    assert_eq!(Time::Finite(3).plus(Time::zero()), Time::Finite(3));
    assert_eq!(Time::Finite(u64::MAX - 1).plus(Time::Finite(1)), Time::Finite(u64::MAX));
    assert_eq!(Time::Finite(u64::MAX).plus(Time::Finite(1)), Time::Infinite);
    assert_eq!(Time::Finite(u64::MAX).plus(Time::Finite(u64::MAX)), Time::Infinite);
    assert_eq!(Time::Finite(3).plus(Time::Infinite), Time::Infinite);
    assert_eq!(Time::Infinite.plus(Time::Finite(3)), Time::Infinite);
    assert_eq!(Time::Infinite.plus(Time::Infinite), Time::Infinite);
}

#[test]
fn time_tells_what_it_is() {
    assert_eq!(Time::zero(), Time::Finite(0));
    assert!(Time::zero().is_zero());
    assert!(!Time::Finite(1).is_zero());
    assert!(!Time::Infinite.is_zero());
    assert!(Time::Finite(u64::MAX).is_finite());
    assert!(!Time::Infinite.is_finite());
    assert_eq!(Time::Finite(9).ticks(), Some(9));
    assert_eq!(Time::Infinite.ticks(), None);
}

#[test]
fn strings_are_compared_by_their_characters() {
    assert!(str_eq("", ""));
    assert!(str_eq("generator-01", "generator-01"));
    assert!(!str_eq("generator-01", "generator-02"));
    assert!(!str_eq("generator-01", "generator-0"));
    assert!(!str_eq("", "a"));
    assert!(str_eq("größe ✓", "größe ✓"));
    assert!(!str_eq("größe", "grösse"));
}

#[test]
fn each_failure_has_its_sentence() {
    assert_eq!(
        SimulationError::ModelNotFound.to_string(),
        "The requested model was not found in the simulation"
    );
    assert_eq!(
        SimulationError::InvalidModelConfiguration.to_string(),
        "An invalid model configuration was encountered during simulation"
    );
    assert_eq!(
        SimulationError::InvalidMessage.to_string(),
        "An invalid message was encountered during simulation"
    );
    assert_eq!(
        SimulationError::DuplicateModelId(vec!["a".to_string(), "b".to_string(), "c".to_string()])
            .to_string(),
        "Several models share an id: a, b, c"
    );
    assert_eq!(
        SimulationError::DuplicateModelId(vec!["a".to_string()]).to_string(),
        "Several models share an id: a"
    );
    assert_eq!(
        SimulationError::ModelEventFailure { model_id: "m".to_string(), reason: "r".to_string() }
            .to_string(),
        "The model m failed to handle an event: r"
    );
}

#[test]
fn strings_are_joined_with_commas() {
    assert_eq!(join_with_commas(&Vec::new()), "");
    assert_eq!(join_with_commas(&vec!["a".to_string()]), "a");
    assert_eq!(join_with_commas(&vec!["a".to_string(), "".to_string(), "c".to_string()]), "a, , c");
}

#[test]
fn a_connector_tells_its_ends() {
    let c = connector("connector-01", "generator-01", "job", "processor-01", "in");
    assert_eq!(c.id(), "connector-01");
    assert_eq!(c.source_id(), "generator-01");
    assert_eq!(c.source_port(), "job");
    assert_eq!(c.target_id(), "processor-01");
    assert_eq!(c.target_port(), "in");
    assert_eq!(c.clone(), c);
}

#[test]
fn a_message_tells_its_route_and_content() {
    let m = Message::new(
        "generator-01".to_string(),
        "job".to_string(),
        "storage-01".to_string(),
        "store".to_string(),
        Time::Finite(11),
        "testing 02".to_string(),
    );
    assert_eq!(m.source_id(), "generator-01");
    assert_eq!(m.source_port(), "job");
    assert_eq!(m.target_id(), "storage-01");
    assert_eq!(m.target_port(), "store");
    assert_eq!(m.time(), Time::Finite(11));
    assert_eq!(m.content(), "testing 02");
    assert_eq!(m.clone(), m);
    let list = vec![m.clone(), m];
    assert_eq!(clone_messages(&list), list);
    assert_eq!(clone_messages(&Vec::new()), Vec::new());
}

#[test]
fn model_messages_records_and_failures_are_plain_values() {
    let message = ModelMessage { port_name: "job".to_string(), content: "c".to_string() };
    assert_eq!(message.clone(), message);
    let record =
        ModelRecord { time: Time::Finite(2), action: "a".to_string(), subject: "s".to_string() };
    assert_eq!(record.clone(), record);
    assert_eq!(ModelFailure::new("why".to_string()).reason, "why");
}

#[test]
fn services_hold_the_clock_and_the_random_source() {
    let mut services = Services::new(7u64);
    assert_eq!(services.global_time(), Time::Finite(0));
    assert_eq!(*services.global_rng(), 7);
    *services.global_rng() = 8;
    services.set_global_time(Time::Finite(4));
    assert_eq!(services.global_time(), Time::Finite(4));
    assert_eq!(*services.global_rng(), 8);
    let fresh: Services<u64> = Services::default();
    assert_eq!(fresh.global_time(), Time::Finite(0));
}

#[test]
fn models_are_equal_if_their_ids_are() {
    assert!(model("a", "x") == model("a", "y"));
    assert!(model("a", "x") != model("b", "x"));
    assert_eq!(model("a", "x").id(), "a");
    assert_eq!(model("a", "x").owned_id(), "a".to_string());
    let mut m = model("a", "x");
    assert_eq!(m.until_next_event(), Time::Infinite);
    assert_eq!(m.status(), "idle x");
    assert_eq!(m.records().len(), 0);
    m.time_advance(Time::Finite(1));
    let mut services = Services::new(0u64);
    let incoming = ModelMessage { port_name: "p".to_string(), content: "c".to_string() };
    assert_eq!(m.events_ext(&incoming, &mut services), Ok(()));
    assert_eq!(m.inner, Idle::named("x"));
}

#[test]
fn models_are_hashed_by_their_ids() {
    let digest = |m: &Model<Idle>| {
        let mut hasher = std::collections::hash_map::DefaultHasher::new();
        m.hash(&mut hasher);
        hasher.finish()
    };
    let text = |s: &str| {
        let mut hasher = std::collections::hash_map::DefaultHasher::new();
        s.to_string().hash(&mut hasher);
        hasher.finish()
    };
    assert_eq!(digest(&model("a", "x")), digest(&model("a", "y")));
    assert_eq!(digest(&model("a", "x")), text("a"));
    assert_ne!(digest(&model("a", "x")), digest(&model("b", "x")));
}

#[test]
fn a_simulation_can_be_copied_and_made_empty() {
    let mut sim = Simulation::post(
        vec![model("a", "x")],
        vec![connector("c", "a", "o", "a", "i")],
    );
    let copy = sim.clone();
    sim.put(Vec::new(), Vec::new());
    assert_eq!(copy.get_models().len(), 1);
    assert_eq!(copy.get_connectors().len(), 1);
    assert_eq!(sim.get_models().len(), 0);
    let empty: Simulation<Idle> = Simulation::default();
    assert_eq!(empty.get_models().len(), 0);
    assert_eq!(empty.get_connectors().len(), 0);
    assert_eq!(empty.get_messages().len(), 0);
    assert_eq!(empty.get_global_time(), Time::Finite(0));
}

#[test]
fn a_collection_finds_models_by_id() {
    let mut models: ModelCollection<Idle> = ModelCollection::new();
    assert!(models.is_empty());
    assert_eq!(models.len(), 0);
    assert_eq!(models.keys(), Vec::<String>::new());
    assert!(models.insert(model("b", "first")).is_none());
    assert!(models.insert(model("a", "second")).is_none());
    assert!(models.insert(model("c", "third")).is_none());
    assert!(!models.is_empty());
    assert_eq!(models.len(), 3);
    assert_eq!(models.keys(), vec!["b".to_string(), "a".to_string(), "c".to_string()]);
    assert_eq!(models.position("b"), Some(0));
    assert_eq!(models.position("a"), Some(1));
    assert_eq!(models.position("c"), Some(2));
    assert_eq!(models.position("d"), None);
    assert!(models.contains_key("a"));
    assert!(!models.contains_key("A"));
    assert_eq!(models.get("a").unwrap().inner.name, "second");
    assert!(models.get("d").is_none());
    assert_eq!(models.at(2).inner.name, "third");
    models.at_mut(2).inner.name = "changed".to_string();
    assert_eq!(models.get("c").unwrap().inner.name, "changed");
    models.get_mut("b").unwrap().inner.name = "too".to_string();
    assert_eq!(models.values()[0].inner.name, "too");
    assert!(models.get_mut("d").is_none());
}

#[test]
fn insert_replaces_the_model_with_the_same_id() {
    let mut models: ModelCollection<Idle> = ModelCollection::new();
    models.insert(model("a", "first"));
    models.insert(model("b", "second"));
    let replaced = models.insert(model("a", "third")).unwrap();
    assert_eq!(replaced.inner.name, "first");
    assert_eq!(models.len(), 2);
    assert_eq!(models.keys(), vec!["a".to_string(), "b".to_string()]);
    assert_eq!(models.get("a").unwrap().inner.name, "third");
}

#[test]
fn a_collection_of_given_models_keeps_them_all() {
    let models = ModelCollection::from_models(vec![model("a", "1"), model("b", "2"), model("a", "3")]);
    assert_eq!(models.len(), 3);
    assert_eq!(models.keys(), vec!["a".to_string(), "b".to_string(), "a".to_string()]);
    assert_eq!(models.get("a").unwrap().inner.name, "1");
    assert_eq!(models.position("a"), Some(0));
    assert_eq!(models.values().len(), 3);
}

#[test]
fn the_router_finds_the_targets_in_order() {
    let connectors = vec![
        connector("c1", "a", "out", "z", "in"),
        connector("c2", "a", "other", "y", "in"),
        connector("c3", "b", "out", "x", "in"),
        connector("c4", "a", "out", "w", "side"),
        connector("c5", "a", "out", "z", "in"),
    ];
    let sim: Simulation<Idle> = Simulation::post(Vec::new(), connectors);
    let pair = |id: &str, port: &str| (id.to_string(), port.to_string());
    assert_eq!(
        sim.get_message_target_tuple("a", "out"),
        vec![pair("z", "in"), pair("w", "side"), pair("z", "in")]
    );
    assert_eq!(sim.get_message_target_tuple("a", "other"), vec![pair("y", "in")]);
    assert_eq!(sim.get_message_target_tuple("b", "out"), vec![pair("x", "in")]);
    assert_eq!(sim.get_message_target_tuple("b", "other"), Vec::new());
    assert_eq!(sim.get_message_target_tuple("out", "a"), Vec::new());
}

#[test]
fn new_messages_are_addressed_and_stamped() {
    let connectors = vec![
        connector("c1", "a", "out", "z", "in"),
        connector("c2", "a", "other", "y", "in"),
        connector("c3", "a", "out", "w", "side"),
    ];
    let mut sim: Simulation<Idle> = Simulation::post(vec![model("x", "x")], connectors);
    sim.step().unwrap();
    assert_eq!(sim.get_global_time(), Time::Infinite);
    let first = ModelMessage { port_name: "out".to_string(), content: "one".to_string() };
    let second = ModelMessage { port_name: "other".to_string(), content: "two".to_string() };
    let third = ModelMessage { port_name: "none".to_string(), content: "three".to_string() };
    let made = |port: &str, target: &str, target_port: &str, content: &str| {
        Message::new(
            "a".to_string(),
            port.to_string(),
            target.to_string(),
            target_port.to_string(),
            Time::Infinite,
            content.to_string(),
        )
    };
    assert_eq!(
        sim.map_new_message("a".to_string(), &first),
        vec![made("out", "z", "in", "one"), made("out", "w", "side", "one")]
    );
    assert_eq!(sim.map_new_message("a".to_string(), &third), Vec::new());
    assert_eq!(sim.map_new_message("b".to_string(), &first), Vec::new());
    assert_eq!(
        sim.map_new_messages("a".to_string(), &vec![second.clone(), third, first, second]),
        vec![
            made("other", "y", "in", "two"),
            made("out", "z", "in", "one"),
            made("out", "w", "side", "one"),
            made("other", "y", "in", "two"),
        ]
    );
    assert_eq!(sim.map_new_messages("a".to_string(), &Vec::new()), Vec::new());
    assert_eq!(sim.get_messages().len(), 0);
}

#[test]
fn the_graph_has_a_node_for_each_model_and_an_edge_for_each_connector() {
    let sim = Simulation::post(
        vec![model("generator-01", "g"), model("storage-01", "s")],
        vec![
            connector("connector-01", "generator-01", "job", "storage-01", "store"),
            connector("connector-02", "storage-01", "stored", "generator-01", "ack"),
        ],
    );
    assert_eq!(
        sim.generate_dot_graph(),
        "digraph DAG {\n  \"generator-01\" [shape=box];\n  \"storage-01\" [shape=box];\n  \
         \"generator-01\" -> \"storage-01\" [label=\"connector-01\"];\n  \
         \"storage-01\" -> \"generator-01\" [label=\"connector-02\"];\n}\n"
    );
}

#[test]
fn the_graph_of_an_empty_simulation_is_an_empty_block() {
    let sim: Simulation<Idle> = Simulation::post(Vec::new(), Vec::new());
    assert_eq!(sim.generate_dot_graph(), "digraph DAG {\n}\n");
}
