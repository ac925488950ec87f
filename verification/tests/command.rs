use process_bridge::command::{join, transcription_command, Installation, ProcessSpec};

fn texts(parts: &[&str]) -> Vec<String> {
    parts.iter().map(|part| part.to_string()).collect()
}

#[test]
fn join_puts_the_separator_between_neighbours() {
    assert_eq!(join(&texts(&[]), ","), "");
    assert_eq!(join(&texts(&["a.wav"]), ","), "a.wav");
    assert_eq!(join(&texts(&["a.wav", "b.wav", "c.wav"]), ","), "a.wav,b.wav,c.wav");
    assert_eq!(join(&texts(&["", ""]), ","), ",");
    assert_eq!(join(&texts(&["x", "y"]), " - "), "x - y");
}

#[test]
fn transcription_command_with_a_configuration() {
    let spec = transcription_command(
        "/opt/py/bin/python".to_string(),
        "/srv/core".to_string(),
        &texts(&["a.wav", "b.wav"]),
        "/tmp/out".to_string(),
        Some("/etc/asr.sone".to_string()),
    );
    assert_eq!(spec.executable_path(), "/opt/py/bin/python");
    assert_eq!(spec.working_directory(), "/srv/core");
    assert_eq!(
        spec.arguments(),
        &texts(&[
            "-m",
            "app.cli",
            "transcribe",
            "--files",
            "a.wav,b.wav",
            "--outdir",
            "/tmp/out",
            "--config",
            "/etc/asr.sone",
        ])
    );
    assert_eq!(spec.environment(), &vec![("PYTHONUNBUFFERED".to_string(), "1".to_string())]);
}

#[test]
fn transcription_command_without_a_configuration() {
    let spec = transcription_command(
        "python".to_string(),
        ".".to_string(),
        &texts(&["only.wav"]),
        "out".to_string(),
        None,
    );
    assert_eq!(
        spec.arguments(),
        &texts(&["-m", "app.cli", "transcribe", "--files", "only.wav", "--outdir", "out"])
    );
    assert_eq!(
        spec,
        ProcessSpec::new(
            "python".to_string(),
            ".".to_string(),
            texts(&["-m", "app.cli", "transcribe", "--files", "only.wav", "--outdir", "out"]),
            vec![("PYTHONUNBUFFERED".to_string(), "1".to_string())],
        )
    );
}

#[test]
fn transcription_command_without_files_has_an_empty_files_argument() {
    let spec =
        transcription_command("python".to_string(), ".".to_string(), &texts(&[]), "out".to_string(), None);
    assert_eq!(
        spec.arguments(),
        &texts(&["-m", "app.cli", "transcribe", "--files", "", "--outdir", "out"])
    );
}

#[test]
fn process_spec_keeps_the_order_of_its_arguments() {
    let arguments = texts(&["z", "a", "z", "", "m"]);
    let environment = vec![
        ("B".to_string(), "2".to_string()),
        ("A".to_string(), "1".to_string()),
    ];
    let spec = ProcessSpec::new("run".to_string(), "/w".to_string(), texts(&["z", "a", "z", "", "m"]), vec![
        ("B".to_string(), "2".to_string()),
        ("A".to_string(), "1".to_string()),
    ]);
    assert_eq!(spec.arguments(), &arguments);
    assert_eq!(spec.environment(), &environment);
}

#[test]
fn development_installation_lies_below_the_home_directory() {
    let installation = Installation::development("/home/ada");
    assert_eq!(
        installation,
        Installation {
            python_path: "/home/ada/Sophia/.venv/bin/python".to_string(),
            core_directory: "/home/ada/Sophia/core".to_string(),
            default_config: "/home/ada/Sophia/sone/subtitle.asr.sone".to_string(),
        }
    );
}

#[test]
fn installation_uses_its_own_configuration_where_none_is_given() {
    let spec = Installation::development("/Users/dragonpd").transcription(
        &texts(&["a.wav"]),
        "/out".to_string(),
        None,
    );
    assert_eq!(spec.executable_path(), "/Users/dragonpd/Sophia/.venv/bin/python");
    assert_eq!(spec.working_directory(), "/Users/dragonpd/Sophia/core");
    assert_eq!(
        spec.arguments(),
        &texts(&[
            "-m",
            "app.cli",
            "transcribe",
            "--files",
            "a.wav",
            "--outdir",
            "/out",
            "--config",
            "/Users/dragonpd/Sophia/sone/subtitle.asr.sone",
        ])
    );
}

#[test]
fn installation_passes_a_given_configuration_on() {
    let spec = Installation::development("/home/ada").transcription(
        &texts(&["a.wav", "b.wav"]),
        "/out".to_string(),
        Some("/etc/my.sone".to_string()),
    );
    assert_eq!(
        spec.arguments(),
        &texts(&[
            "-m",
            "app.cli",
            "transcribe",
            "--files",
            "a.wav,b.wav",
            "--outdir",
            "/out",
            "--config",
            "/etc/my.sone",
        ])
    );
}
