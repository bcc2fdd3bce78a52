use sim::models::{DevsModel, Model, ModelFailure, ModelMessage, ModelRecord, Reportable};
use sim::simulator::{Connector, Message, ModelCollectionType, Services, Simulation};
use sim::Time;

/// A model that stands in for a generator or a storage: it keeps what arrives
/// at `input`, and when its event is due it emits one job on `output` and
/// schedules the next event `period` later.
#[derive(Clone, Debug)]
struct Station {
    input: String,
    output: String,
    until_next: Time,
    period: Time,
    stored: Vec<String>,
    emitted: u64,
    records: Vec<ModelRecord>,
}

impl DevsModel for Station {
    type Rng = u64;
    type State = ();

    fn events_ext(
        &mut self,
        incoming_message: &ModelMessage,
        services: &mut Services<u64>,
    ) -> Result<(), ModelFailure> {
        if incoming_message.port_name == self.input {
            self.stored.push(incoming_message.content.clone());
            self.records.push(ModelRecord {
                time: services.global_time(),
                action: "arrival".to_string(),
                subject: incoming_message.content.clone(),
            });
        }
        Ok(())
    }

    fn events_int(&mut self, _services: &mut Services<u64>) -> Result<Vec<ModelMessage>, ModelFailure> {
        self.emitted += 1;
        self.until_next = self.period;
        Ok(vec![ModelMessage {
            port_name: self.output.clone(),
            content: format!("job {}", self.emitted),
        }])
    }

    fn time_advance(&mut self, time_delta: Time) {
        self.until_next = match (self.until_next, time_delta) {
            (Time::Finite(left), Time::Finite(passed)) => Time::Finite(left.saturating_sub(passed)),
            (left, _) => left,
        };
    }

    fn until_next_event(&self) -> Time {
        self.until_next
    }
}

impl Reportable for Station {
    fn status(&self) -> String {
        format!("stored {} emitted {}", self.stored.len(), self.emitted)
    }

    fn records(&self) -> &Vec<ModelRecord> {
        &self.records
    }
}

fn base_models() -> ModelCollectionType<Station> {
    let listed = vec![
        Model::new(
            String::from("generator-01"),
            Station {
                input: String::new(),
                output: String::from("job"),
                until_next: Time::Finite(2),
                period: Time::Finite(2),
                stored: Vec::new(),
                emitted: 0,
                records: Vec::new(),
            },
        ),
        Model::new(
            String::from("storage-01"),
            Station {
                input: String::from("store"),
                output: String::from("stored"),
                until_next: Time::Infinite,
                period: Time::Infinite,
                stored: Vec::new(),
                emitted: 0,
                records: Vec::new(),
            },
        ),
    ];
    let mut models = ModelCollectionType::new();
    for model in listed.iter() {
        models.insert(model.clone());
    }
    models
}

fn base_connectors() -> Vec<Connector> {
    vec![Connector::new(
        String::from("connector-01"),
        String::from("generator-01"),
        String::from("storage-01"),
        String::from("job"),
        String::from("store"),
    )]
}

fn base_messages() -> Vec<Message> {
    vec![
        Message::new(
            "generator-01".to_string(),
            "job".to_string(),
            "storage-01".to_string(),
            "store".to_string(),
            Time::Finite(10),
            "testing".to_string(),
        ),
        Message::new(
            "generator-01".to_string(),
            "job".to_string(),
            "storage-01".to_string(),
            "store".to_string(),
            Time::Finite(11),
            "testing 02".to_string(),
        ),
    ]
}

fn base_simulation() -> Simulation<Station> {
    let mut sim = Simulation::post_hd(base_models(), base_connectors());
    base_messages().iter().for_each(|msg| {
        sim.inject_input(msg.clone());
    });
    sim
}

#[test]
fn model_filter_first() {
    let expected_model_id = "generator-01".to_string();
    let models = base_models();
    let related_models = models
        .values()
        .iter()
        .filter(|m| m.id() == expected_model_id)
        .map(|om| (om.id().to_string(), om.clone()))
        .collect::<Vec<_>>();
    assert_eq!(related_models.len(), 1);
    assert_eq!(*related_models[0].0, expected_model_id);
}

#[test]
fn model_filter() {
    let expected_model_id = "generator-01".to_string();
    let models = base_models();
    let related_model = models.get(&expected_model_id);
    assert!(related_model.is_some());
}

#[test]
fn model_retain() {
    let expected_model_id = "storage-01".to_string();
    let models = base_models();
    assert!(models.get(&expected_model_id).is_some());
}

#[test]
fn injected_messages_reach_the_storage() {
    let mut sim = base_simulation();
    assert_eq!(sim.get_messages(), &base_messages());
    let sent = sim.step().unwrap();
    assert_eq!(sent, Vec::new());
    assert_eq!(sim.get_messages().len(), 0);
    assert_eq!(sim.get_global_time(), Time::Finite(0));
    assert_eq!(sim.get_status("storage-01").unwrap(), "stored 2 emitted 0");
    let records = sim.get_records("storage-01").unwrap();
    assert_eq!(records.len(), 2);
    assert_eq!(records[0].subject, "testing");
    assert_eq!(records[1].subject, "testing 02");
    assert_eq!(sim.get_status("generator-01").unwrap(), "stored 0 emitted 0");
}
