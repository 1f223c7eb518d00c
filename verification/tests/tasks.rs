use sabitori::tasks::Tasks;

#[derive(Default)]
struct App {
    log: Vec<String>,
}

type Apply = Box<dyn FnOnce(&mut App)>;

fn apply_all(tasks: &mut Tasks<Apply>, app: &mut App) {
    for f in tasks.drain() {
        f(app);
    }
}

#[test]
fn a_finished_task_applies_to_the_app() {
    let mut tasks: Tasks<Apply> = Tasks::new();
    let mut app = App::default();
    let g = tasks.begin();
    let n = 42;
    tasks.deliver(g, Box::new(move |app: &mut App| app.log.push(format!("got {n}"))));
    apply_all(&mut tasks, &mut app);
    assert_eq!(app.log, vec!["got 42"]);
}

#[test]
fn a_result_applies_once() {
    let mut tasks: Tasks<Apply> = Tasks::new();
    let mut app = App::default();
    let g = tasks.begin();
    tasks.deliver(g, Box::new(|app: &mut App| app.log.push(1.to_string())));
    apply_all(&mut tasks, &mut app);
    apply_all(&mut tasks, &mut app);
    assert_eq!(app.log.len(), 1);
}

#[test]
fn cancel_all_drops_results_in_flight() {
    let mut tasks: Tasks<Apply> = Tasks::new();
    let mut app = App::default();
    let g = tasks.begin();
    tasks.deliver(g, Box::new(|app: &mut App| app.log.push("old screen".to_string())));
    let late = tasks.begin();
    tasks.cancel_all();
    tasks.deliver(late, Box::new(|app: &mut App| app.log.push("late".to_string())));
    apply_all(&mut tasks, &mut app);
    assert!(app.log.is_empty(), "a dropped result was applied");

    let g = tasks.begin();
    tasks.deliver(g, Box::new(|app: &mut App| app.log.push("new screen".to_string())));
    apply_all(&mut tasks, &mut app);
    assert_eq!(app.log, vec!["new screen"]);
}

#[test]
fn pending_counts_what_is_still_running() {
    let mut tasks: Tasks<Apply> = Tasks::new();
    assert_eq!(tasks.pending(), 0);
    let g = tasks.begin();
    let h = tasks.begin();
    assert_eq!(tasks.pending(), 2);
    tasks.deliver(g, Box::new(|_app: &mut App| {}));
    assert_eq!(tasks.pending(), 1);
    tasks.cancel_all();
    tasks.deliver(h, Box::new(|_app: &mut App| {}));
    assert_eq!(tasks.pending(), 0, "back to 0 once finished");
}

#[test]
fn cancelling_moves_the_generation_on() {
    let mut tasks: Tasks<u32> = Tasks::new();
    assert_eq!(tasks.current_generation(), 0);
    let g = tasks.begin();
    assert_eq!(g, 0);
    tasks.cancel_all();
    assert_eq!(tasks.current_generation(), 1);
    tasks.deliver(g, 7);
    assert!(tasks.drain().is_empty(), "the stale result never drains");
    assert_eq!(tasks.pending(), 0);
}
