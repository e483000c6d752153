use deeplearning::evolution::stop::StopRule;
use deeplearning::fitness::Fitness;
use deeplearning::scaling::master::{
    Acceptance, Arrival, NetworkEvolvable, Rated, Step, Synchronizer, TrainPlan,
};
use deeplearning::scaling::{
    process_type, Options, ProcessType, StartCondition, SynchronizeCondition, WORKER_SENTINEL,
};
use deeplearning::wire::{Reply, WireError};

fn fitness(value: f64) -> Fitness {
    Fitness::from_bits(value.to_bits())
}

#[test]
fn the_default_options() {
    let options = Options::defaults();
    assert_eq!(options.port, 1337);
    assert_eq!(options.start_condition, StartCondition::AmountClientsReady(6));
    assert_eq!(options.sync_condition, SynchronizeCondition::AfterGenerationsAdvanced(6));
    assert_eq!(options.stop_rule, StopRule::GenerationReached(10));
}

#[test]
fn three_clients_ready_starts_upon_the_third_connection() {
    let mut acceptance = Acceptance::new(StartCondition::AmountClientsReady(3));
    assert_eq!(acceptance.on(Arrival::Connected), Step::Listen);
    assert_eq!(acceptance.on(Arrival::Connected), Step::Listen);
    assert!(!acceptance.has_begun());
    assert_eq!(acceptance.on(Arrival::Connected), Step::Begin);
    assert!(acceptance.has_begun());
    assert_eq!(acceptance.held(), 3);
    // Later attempts are not taken in.
    assert_eq!(acceptance.on(Arrival::Connected), Step::Begin);
    assert_eq!(acceptance.on(Arrival::Failed), Step::Begin);
    assert_eq!(acceptance.on(Arrival::Quiet(100)), Step::Begin);
    assert_eq!(acceptance.held(), 3);
}

#[test]
fn each_worker_gets_the_next_index() {
    let mut acceptance = Acceptance::new(StartCondition::AmountClientsReady(4));
    for _ in 0..4 {
        acceptance.on(Arrival::Connected);
    }
    assert_eq!(acceptance.condition(), StartCondition::AmountClientsReady(4));
    for (index, worker) in acceptance.workers().iter().enumerate() {
        assert_eq!(*worker, NetworkEvolvable { client: index, fitness: None, cross_with: None });
    }
}

#[test]
fn a_failed_attempt_does_not_count() {
    let mut acceptance = Acceptance::new(StartCondition::AmountClientsReady(2));
    assert_eq!(acceptance.on(Arrival::Failed), Step::Listen);
    assert_eq!(acceptance.on(Arrival::Connected), Step::Listen);
    assert_eq!(acceptance.on(Arrival::Failed), Step::Listen);
    assert_eq!(acceptance.on(Arrival::Failed), Step::Listen);
    assert_eq!(acceptance.held(), 1);
    assert_eq!(acceptance.on(Arrival::Connected), Step::Begin);
    assert_eq!(acceptance.held(), 2);
}

#[test]
fn quiet_spells_do_not_start_a_master_that_counts_clients() {
    let mut acceptance = Acceptance::new(StartCondition::AmountClientsReady(2));
    acceptance.on(Arrival::Connected);
    assert_eq!(acceptance.on(Arrival::Quiet(usize::MAX)), Step::Listen);
}

#[test]
fn a_master_that_wants_no_client_never_starts() {
    let mut acceptance = Acceptance::new(StartCondition::AmountClientsReady(0));
    assert_eq!(acceptance.on(Arrival::Quiet(5)), Step::Listen);
    assert_eq!(acceptance.on(Arrival::Connected), Step::Listen);
    assert_eq!(acceptance.on(Arrival::Connected), Step::Listen);
}

#[test]
fn no_connects_since_seconds_starts_after_the_quiet_spell() {
    let mut acceptance = Acceptance::new(StartCondition::NoConnectsSinceSeconds(15));
    assert_eq!(acceptance.on(Arrival::Connected), Step::Listen);
    assert_eq!(acceptance.on(Arrival::Quiet(14)), Step::Listen);
    assert_eq!(acceptance.on(Arrival::Connected), Step::Listen);
    assert_eq!(acceptance.on(Arrival::Quiet(3)), Step::Listen);
    assert_eq!(acceptance.on(Arrival::Quiet(15)), Step::Begin);
    assert_eq!(acceptance.held(), 2);
    assert_eq!(acceptance.on(Arrival::Connected), Step::Begin);
    assert_eq!(acceptance.held(), 2);
}

#[test]
fn a_quiet_spell_without_any_worker_starts_nothing() {
    let mut acceptance = Acceptance::new(StartCondition::NoConnectsSinceSeconds(1));
    assert_eq!(acceptance.on(Arrival::Quiet(60)), Step::Listen);
    assert_eq!(acceptance.on(Arrival::Connected), Step::Listen);
    assert_eq!(acceptance.on(Arrival::Quiet(1)), Step::Begin);
}

#[test]
fn crossing_over_touches_no_score_but_its_own() {
    let mut first = NetworkEvolvable::new(2);
    first.trained(fitness(8.0));
    let second = NetworkEvolvable::new(5);
    let child = first.cross_over(&second);
    assert_eq!(child, NetworkEvolvable { client: 2, fitness: None, cross_with: Some(5) });
    assert_eq!(first.fitness, Some(fitness(8.0)));
    assert_eq!(second, NetworkEvolvable::new(5));
}

#[test]
fn the_plan_names_the_partner_of_a_pending_crossover() {
    let first = NetworkEvolvable::new(2);
    assert_eq!(first.plan(), TrainPlan { worker: 2, partner: None });
    let child = first.cross_over(&NetworkEvolvable::new(7));
    assert_eq!(child.plan(), TrainPlan { worker: 2, partner: Some(7) });
}

#[test]
fn training_settles_the_crossover_and_keeps_the_score() {
    let mut child = NetworkEvolvable::new(1).cross_over(&NetworkEvolvable::new(0));
    child.trained(fitness(3.5));
    assert_eq!(child, NetworkEvolvable { client: 1, fitness: Some(fitness(3.5)), cross_with: None });
    assert_eq!(child.plan(), TrainPlan { worker: 1, partner: None });
}

#[test]
fn a_proxy_is_rated_by_its_last_score() {
    let mut proxy = NetworkEvolvable::new(0);
    assert!(proxy.rating().is_not_a_number());
    proxy.trained(fitness(-4.0));
    assert_eq!(proxy.rating(), fitness(-4.0));
    assert!(proxy.rating().exceeds(&NetworkEvolvable::new(1).rating()));
}

#[test]
fn a_proxy_takes_its_score_from_the_reply() {
    let mut proxy = NetworkEvolvable::new(3).cross_over(&NetworkEvolvable::new(4));
    assert_eq!(proxy.heard(&Reply::Trained { fitness: fitness(2.0) }), Ok(()));
    assert_eq!(proxy, NetworkEvolvable { client: 3, fitness: Some(fitness(2.0)), cross_with: None });
    let started = Reply::Started { fitness: fitness(6.0), individual: Some(vec![1]) };
    assert_eq!(proxy.heard(&started), Ok(()));
    assert_eq!(proxy.fitness, Some(fitness(6.0)));
}

#[test]
fn a_reply_to_get_is_no_score() {
    let mut proxy = NetworkEvolvable::new(3).cross_over(&NetworkEvolvable::new(4));
    let before = proxy;
    assert_eq!(
        proxy.heard(&Reply::Current { individual: None }),
        Err(WireError::UnexpectedCommand)
    );
    assert_eq!(proxy, before);
}

#[test]
fn synchronisation_is_due_by_time_or_by_generations() {
    let by_time = SynchronizeCondition::AfterTimeInSeconds(30);
    assert!(!by_time.due(29, 1000));
    assert!(by_time.due(30, 0));
    let by_generations = SynchronizeCondition::AfterGenerationsAdvanced(6);
    assert!(!by_generations.due(1000, 5));
    assert!(by_generations.due(0, 6));
    assert!(by_generations.due(0, 7));
}

#[test]
fn the_sentinel_marks_a_worker() {
    assert_eq!(WORKER_SENTINEL, "--type child");
    let arguments = vec!["program".to_string(), "--type child".to_string()];
    assert_eq!(process_type(&arguments), ProcessType::Slave);
    let arguments = vec!["--type child".to_string(), "more".to_string()];
    assert_eq!(process_type(&arguments), ProcessType::Slave);
}

#[test]
fn without_the_sentinel_the_process_is_the_master() {
    assert_eq!(process_type(&vec![]), ProcessType::Master);
    let arguments = vec![
        "program".to_string(),
        "--type".to_string(),
        "child".to_string(),
        "--type child ".to_string(),
        "--type  child".to_string(),
    ];
    assert_eq!(process_type(&arguments), ProcessType::Master);
}

#[test]
fn a_watch_starts_with_nothing_rated() {
    let watch = Synchronizer::new(SynchronizeCondition::AfterGenerationsAdvanced(2), 3);
    assert_eq!(
        watch,
        Synchronizer {
            condition: SynchronizeCondition::AfterGenerationsAdvanced(2),
            population: 3,
            rated: 0,
            generations: 0,
            leader: None,
        }
    );
    assert_eq!(Synchronizer::new(SynchronizeCondition::AfterTimeInSeconds(1), 0).population, 1);
}

#[test]
fn a_synchronisation_is_due_when_the_generations_are_complete() {
    let mut watch = Synchronizer::new(SynchronizeCondition::AfterGenerationsAdvanced(2), 3);
    // first generation
    assert_eq!(watch.rated(0, fitness(1.0), 0), None);
    assert_eq!(watch.leader, Some(Rated { worker: 0, fitness: fitness(1.0) }));
    assert_eq!(watch.rated(1, fitness(5.0), 0), None);
    assert_eq!(watch.rated(2, fitness(3.0), 0), None);
    assert_eq!(watch.generations, 1);
    assert_eq!(watch.rated, 0);
    assert_eq!(watch.leader, None);
    // second generation
    assert_eq!(watch.rated(0, fitness(2.0), 0), None);
    assert_eq!(watch.rated(1, fitness(2.0), 0), None);
    assert_eq!(watch.rated(2, fitness(9.0), 0), Some(2));
    assert_eq!(watch.generations, 0);
    // third generation: the count starts over
    assert_eq!(watch.rated(0, fitness(2.0), 0), None);
    assert_eq!(watch.rated(1, fitness(2.0), 0), None);
    assert_eq!(watch.rated(2, fitness(1.0), 0), None);
    assert_eq!(watch.generations, 1);
}

#[test]
fn the_first_of_several_best_workers_is_the_source() {
    let mut watch = Synchronizer::new(SynchronizeCondition::AfterGenerationsAdvanced(1), 4);
    assert_eq!(watch.rated(3, fitness(7.0), 0), None);
    assert_eq!(watch.rated(1, fitness(8.0), 0), None);
    assert_eq!(watch.rated(0, fitness(8.0), 0), None);
    assert_eq!(watch.rated(2, fitness(8.0), 0), Some(1));
}

#[test]
fn the_last_rating_of_a_generation_can_lead_it() {
    let mut watch = Synchronizer::new(SynchronizeCondition::AfterGenerationsAdvanced(1), 2);
    assert_eq!(watch.rated(0, fitness(1.0), 0), None);
    assert_eq!(watch.rated(1, fitness(2.0), 0), Some(1));
    assert_eq!(watch.rated(0, fitness(3.0), 0), None);
    assert_eq!(watch.rated(1, fitness(2.0), 0), Some(0));
}

#[test]
fn a_synchronisation_by_time_waits_for_the_end_of_a_generation() {
    let mut watch = Synchronizer::new(SynchronizeCondition::AfterTimeInSeconds(10), 2);
    assert_eq!(watch.rated(0, fitness(4.0), 50), None);
    assert_eq!(watch.rated(1, fitness(1.0), 9), None);
    assert_eq!(watch.generations, 1);
    assert_eq!(watch.rated(0, fitness(4.0), 9), None);
    assert_eq!(watch.rated(1, fitness(6.0), 10), Some(1));
    assert_eq!(watch.generations, 0);
}

#[test]
fn a_population_of_one_completes_a_generation_with_every_rating() {
    let mut watch = Synchronizer::new(SynchronizeCondition::AfterGenerationsAdvanced(3), 1);
    assert_eq!(watch.rated(0, fitness(1.0), 0), None);
    assert_eq!(watch.rated(0, fitness(1.0), 0), None);
    assert_eq!(watch.rated(0, fitness(1.0), 0), Some(0));
}

#[test]
fn the_count_of_generations_stops_at_the_largest_number() {
    let mut watch = Synchronizer::new(SynchronizeCondition::AfterTimeInSeconds(5), 1);
    watch.generations = usize::MAX;
    assert_eq!(watch.rated(0, fitness(1.0), 0), None);
    assert_eq!(watch.generations, usize::MAX);
}
