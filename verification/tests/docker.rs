use rootcause::docker::{failure_message, prune_result, summarize_prune, unavailable_message, DockerRun};

#[test]
fn prune_summaries() {
    assert_eq!(
        summarize_prune("Deleted Images:\nuntagged: x\n\nTotal reclaimed space: 1.2GB\n"),
        "Total reclaimed space: 1.2GB"
    );
    assert_eq!(summarize_prune("line one\nline two\n"), "line two");
    assert_eq!(summarize_prune("  \n "), "Purga completada. Nada que liberar.");
}

#[test]
fn prune_outcomes() {
    assert_eq!(
        prune_result(DockerRun::Succeeded("Total reclaimed space: 0B".to_owned())),
        Ok("Total reclaimed space: 0B".to_owned())
    );
    assert_eq!(prune_result(DockerRun::Missing), Err("Docker no está instalado.".to_owned()));
    assert_eq!(prune_result(DockerRun::Failed("boom".to_owned())), Err("boom".to_owned()));
}

#[test]
fn docker_unavailable_messages() {
    assert_eq!(
        unavailable_message(&DockerRun::Missing),
        Some("Docker no está instalado o no está en el PATH. Instálalo para gestionar su espacio.".to_owned())
    );
    assert_eq!(
        unavailable_message(&DockerRun::Failed("x".to_owned())),
        Some("Docker no responde (x). ¿Está Docker Desktop en ejecución?".to_owned())
    );
    assert_eq!(unavailable_message(&DockerRun::Succeeded(String::new())), None);
}

#[test]
fn docker_failure_messages() {
    assert_eq!(failure_message("  Cannot connect to the Docker daemon\n"), "Cannot connect to the Docker daemon");
    assert_eq!(failure_message(" \n"), "docker devolvió un código de error");
}
