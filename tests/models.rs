use kr::models::{AppMode, DeploymentInfo, KubeResource, PendingAction, PodInfo, ResourceType, SecretInfo};

fn pod_with_name(name: &str) -> KubeResource {
    KubeResource::Pod(PodInfo {
        name: name.to_string(),
        phase: None,
        ready_containers: 0,
        total_containers: 0,
        restarts: 0,
        node: None,
        created: None,
    })
}

fn deployment_with_name(name: &str) -> KubeResource {
    KubeResource::Deployment(DeploymentInfo {
        name: name.to_string(),
        replicas: 0,
        ready_replicas: 0,
        updated_replicas: 0,
        available_replicas: 0,
        created: None,
    })
}

fn secret_with_name(name: &str) -> KubeResource {
    KubeResource::Secret(SecretInfo { name: name.to_string(), secret_type: None, data: None, created: None })
}

#[test]
fn pod_name() {
    assert_eq!(pod_with_name("nginx").name(), "nginx");
}

#[test]
fn deployment_name() {
    assert_eq!(deployment_with_name("web-app").name(), "web-app");
}

#[test]
fn secret_name() {
    assert_eq!(secret_with_name("db-creds").name(), "db-creds");
}

#[test]
fn empty_metadata_name_returns_empty_str() {
    assert_eq!(pod_with_name("").name(), "");
}

#[test]
fn app_mode_equality() {
    assert_eq!(AppMode::List, AppMode::List);
    assert_ne!(AppMode::List, AppMode::FilterInput);
}

#[test]
fn resource_type_equality() {
    assert_eq!(ResourceType::Pod, ResourceType::Pod);
    assert_ne!(ResourceType::Pod, ResourceType::Secret);
}

#[test]
fn message_delete_single() {
    let a = PendingAction::DeleteResource { count: 1, kind: "pod(s)", names: vec!["nginx".to_string()] };
    assert_eq!(a.message(), "Delete pod(s) 'nginx'?");
}

#[test]
fn message_delete_many() {
    let a = PendingAction::DeleteResource {
        count: 12,
        kind: "pod(s)",
        names: vec!["a".to_string(), "b".to_string()],
    };
    assert_eq!(a.message(), "Delete 12 pod(s)?\na, b");
}

#[test]
fn message_delete_single_without_names() {
    let a = PendingAction::DeleteResource { count: 1, kind: "pod(s)", names: vec![] };
    assert_eq!(a.message(), "Delete pod(s) '?'?");
}

#[test]
fn message_restart() {
    let a = PendingAction::RestartDeployment { name: "web".to_string() };
    assert_eq!(a.message(), "Rollout restart 'web'?");
}

#[test]
fn message_scale() {
    let a = PendingAction::ScaleDeployment { name: "web".to_string(), replicas: 305 };
    assert_eq!(a.message(), "Scale 'web' to 305 replicas?");
    let z = PendingAction::ScaleDeployment { name: "web".to_string(), replicas: 0 };
    assert_eq!(z.message(), "Scale 'web' to 0 replicas?\nThis will stop all pods.");
}
