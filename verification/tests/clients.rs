use std::sync::{Arc, Mutex};

use tasks_api::models::task::{CreateTask, Pagination, TaskFilter};
use tasks_api::routes::tasks::{create_task, get_tasks};
use tasks_api::state::AppState;

#[test]
fn concurrent_creates_keep_every_record() {
    let clients = 8;
    let each = 50;
    let state = Arc::new(Mutex::new(AppState::new()));
    let runtime = tokio::runtime::Builder::new_multi_thread().worker_threads(4).build().unwrap();
    let mut workers = Vec::new();
    for client in 0..clients {
        let state = Arc::clone(&state);
        workers.push(runtime.spawn(async move {
            let mut made: Vec<u128> = Vec::new();
            for n in 0..each {
                let payload = CreateTask { title: format!("client {} task {}", client, n) };
                {
                    let mut guard = state.lock().unwrap();
                    let reply = create_task(&mut guard, payload).unwrap();
                    assert_eq!(reply.status, 201);
                    made.push(reply.body.id);
                }
                tokio::task::yield_now().await;
            }
            made
        }));
    }
    let mut ids: Vec<u128> = Vec::new();
    for worker in workers {
        ids.extend(runtime.block_on(worker).unwrap());
    }
    assert_eq!(ids.len(), clients * each);
    ids.sort();
    ids.dedup();
    assert_eq!(ids.len(), clients * each);

    let guard = state.lock().unwrap();
    let listed = get_tasks(
        &guard,
        TaskFilter { completed: None },
        Pagination { limit: None, offset: None },
    )
    .unwrap()
    .body;
    assert_eq!(listed.len(), clients * each);
    let mut stored: Vec<u128> = listed.iter().map(|t| t.id).collect();
    stored.sort();
    assert_eq!(stored, ids);
    assert!(listed.windows(2).all(|w| w[0].created_at >= w[1].created_at));
}
