use image_prediction::backend::PredictError;
use image_prediction::dispatch::{
    Action, BackendCall, ImagePredictionService, Outcome, PredictionItem, StreamDispatch,
};
use image_prediction::registry::{Config, Model, ModelRegistry};

fn service() -> ImagePredictionService {
    let models = vec![
        Model { name: "model1".to_string(), version: 1, input_name: "input1".to_string() },
        Model { name: "model2".to_string(), version: 2, input_name: "input2".to_string() },
    ];
    let registry = ModelRegistry::load(Config { models }).ok().unwrap();
    ImagePredictionService { models: registry, tf_serving_url: "http://tf:8501/v1".to_string() }
}

fn item(id: i64, model: &str, image: Vec<u8>) -> PredictionItem {
    PredictionItem { id, model: model.to_string(), image }
}

fn spawned(a: Action) -> BackendCall {
    match a {
        Action::Spawn(call) => call,
        Action::Emit(_) => panic!("expected a unit of work"),
    }
}

fn bits(v: &[f32]) -> Vec<u32> {
    v.iter().map(|f| f.to_bits()).collect()
}

#[test]
fn known_model_scores_vector() {
    let svc = service();
    let mut d = StreamDispatch::new();
    let call = spawned(svc.receive(&mut d, item(7, "model1", vec![1, 2, 3])));
    assert_eq!(call.id, 7);
    assert_eq!(call.url, "http://tf:8501/v1/models/model1/versions/1:predict");
    assert_eq!(call.body, r#"{"instances":[{"input1":"AQID"}]}"#);
    assert_eq!(d.in_flight(), 1);
    d.close_inbound();
    assert!(!d.is_finished());
    match d.complete(call.ticket, Some(200), Some(vec![bits(&[0.1, 0.2])])) {
        Some(Outcome::Vector { id, vector }) => {
            assert_eq!(id, 7);
            assert_eq!(vector, bits(&[0.1, 0.2]));
        }
        _ => panic!("expected a vector"),
    }
    assert!(d.is_finished());
}

#[test]
fn unknown_model_rejected_without_work() {
    let svc = service();
    let mut d = StreamDispatch::new();
    match svc.receive(&mut d, item(8, "unknown", vec![9])) {
        Action::Emit(Outcome::ModelNotFound { id, model }) => {
            assert_eq!(id, 8);
            assert_eq!(model, "unknown");
        }
        _ => panic!("expected a rejection"),
    }
    assert_eq!(d.in_flight(), 0);
    d.close_inbound();
    assert!(d.is_finished());
}

#[test]
fn backend_failure_isolated_from_siblings() {
    let svc = service();
    let mut d = StreamDispatch::new();
    let a = spawned(svc.receive(&mut d, item(1, "model2", vec![5])));
    let b = spawned(svc.receive(&mut d, item(2, "model1", vec![6])));
    assert_eq!(a.url, "http://tf:8501/v1/models/model2/versions/2:predict");
    d.close_inbound();
    match d.complete(a.ticket, Some(404), None) {
        Some(Outcome::BackendFailed { id, error: PredictError::BackendRejected { status } }) => {
            assert_eq!((id, status), (1, 404));
        }
        _ => panic!("expected a backend rejection"),
    }
    assert!(!d.is_finished());
    match d.complete(b.ticket, Some(200), Some(vec![bits(&[1.5])])) {
        Some(o) => assert_eq!(o.id(), 2),
        None => panic!("expected an outcome"),
    }
    assert!(d.is_finished());
}

#[test]
fn malformed_reply_becomes_failure() {
    let svc = service();
    let mut d = StreamDispatch::new();
    let a = spawned(svc.receive(&mut d, item(3, "model1", vec![])));
    assert!(matches!(
        d.complete(a.ticket, Some(200), None),
        Some(Outcome::BackendFailed { id: 3, error: PredictError::BackendMalformedResponse })
    ));
}

#[test]
fn out_of_order_completion_answers_each_once() {
    let svc = service();
    let mut d = StreamDispatch::new();
    let mut calls = Vec::new();
    for id in 0..5i64 {
        calls.push(spawned(svc.receive(&mut d, item(id, "model1", vec![id as u8]))));
    }
    let rejected = svc.receive(&mut d, item(99, "nope", vec![]));
    assert!(matches!(rejected, Action::Emit(Outcome::ModelNotFound { id: 99, .. })));
    d.close_inbound();
    let mut seen = vec![99i64];
    for k in [3usize, 0, 4, 1, 2] {
        let o = d.complete(calls[k].ticket, Some(200), Some(vec![])).unwrap();
        seen.push(o.id());
        assert!(d.complete(calls[k].ticket, Some(200), Some(vec![])).is_none());
    }
    assert_eq!(seen, vec![99, 3, 0, 4, 1, 2]);
    let mut sorted = seen.clone();
    sorted.sort();
    assert_eq!(sorted, vec![0, 1, 2, 3, 4, 99]);
    assert!(d.is_finished());
}

#[test]
fn open_inbound_keeps_stream_open() {
    let svc = service();
    let mut d = StreamDispatch::new();
    let a = spawned(svc.receive(&mut d, item(1, "model1", vec![])));
    d.complete(a.ticket, Some(500), None).unwrap();
    assert_eq!(d.in_flight(), 0);
    assert!(!d.is_finished());
    d.close_inbound();
    assert!(d.is_finished());
}

#[test]
fn unknown_ticket_changes_nothing() {
    let mut d = StreamDispatch::new();
    assert!(d.complete(0, Some(200), None).is_none());
    assert_eq!(d.in_flight(), 0);
}

#[test]
fn failure_messages() {
    let nf = Outcome::ModelNotFound { id: 8, model: "unknown".to_string() };
    assert_eq!(nf.failure_message().unwrap(), "The model name unknown does not exist");
    let rej = Outcome::BackendFailed { id: 1, error: PredictError::BackendRejected { status: 404 } };
    assert_eq!(rej.failure_message().unwrap(), "Failed to predict: status code 404");
    let bad = Outcome::BackendFailed { id: 1, error: PredictError::BackendMalformedResponse };
    assert_eq!(bad.failure_message().unwrap(), "Failed to predict: malformed response");
    let gone = Outcome::BackendFailed { id: 1, error: PredictError::BackendUnreachable };
    assert_eq!(gone.failure_message().unwrap(), "Failed to predict: backend unreachable");
    assert!(Outcome::Vector { id: 1, vector: vec![] }.failure_message().is_none());
}

#[test]
fn unreachable_backend_still_answers() {
    let svc = service();
    let mut d = StreamDispatch::new();
    let a = spawned(svc.receive(&mut d, item(4, "model1", vec![1])));
    d.close_inbound();
    assert!(matches!(
        d.complete(a.ticket, None, None),
        Some(Outcome::BackendFailed { id: 4, error: PredictError::BackendUnreachable })
    ));
    assert!(d.is_finished());
}
