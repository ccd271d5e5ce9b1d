use ionconnect::gui::{classify_line, extract_field, log_level_to_rust_log, strip_ansi, trailing_field};
use ionconnect::monitor::{send_files_refusal, sending_summary, CoreMonitor, CORE_LOG_CAPACITY};

#[test]
fn extract_field_handles_unquoted_and_quoted_values() {
    assert_eq!(
        extract_field("... conectado al servidor server=cli", "server="),
        Some("cli".to_string())
    );
    assert_eq!(
        extract_field("... conectado al servidor server=\"mi pc\"", "server="),
        Some("mi pc".to_string())
    );
    assert_eq!(
        extract_field("peer autenticado device_id=abc123 name=laptop", "name="),
        Some("laptop".to_string())
    );
    assert_eq!(extract_field("x device_name=foo name=bar", "name="), Some("bar".to_string()));
    assert_eq!(extract_field("sin el campo", "server="), None);
}

#[test]
fn extract_field_works_after_stripping_ansi() {
    let raw = "\x1b[2m2026\x1b[0m INFO x: conectado al servidor \x1b[3mserver\x1b[0m\x1b[2m=\x1b[0mcli";
    assert_eq!(extract_field(&strip_ansi(raw), "server="), Some("cli".to_string()));
}

#[test]
fn classify_line_prefers_connected_over_generic_error() {
    assert_eq!(classify_line("... conectado al servidor server=cli"), Some("connected"));
    assert_eq!(
        classify_line("ERROR ...: Address already in use (os error 98)"),
        Some("port_busy")
    );
}

#[test]
fn classify_line_reports_each_status() {
    assert_eq!(classify_line("escuchando conexiones de peers port=1"), Some("listening"));
    assert_eq!(classify_line("reintentando conexión en 2s"), Some("retrying"));
    assert_eq!(classify_line("certificado rechazado"), Some("error"));
    assert_eq!(classify_line("identidad local cargada"), Some("starting"));
    assert_eq!(classify_line("nada que ver"), None);
}

#[test]
fn trailing_field_keeps_spaces() {
    assert_eq!(
        trailing_field("archivo recibido path=/home/a/mi foto.png ", "path="),
        Some("/home/a/mi foto.png".to_string())
    );
    assert_eq!(trailing_field("sin ruta", "path="), None);
}

#[test]
fn log_levels_map_to_filters() {
    assert_eq!(log_level_to_rust_log("debug"), "debug");
    assert_eq!(log_level_to_rust_log("cualquiera"), "info");
    assert!(log_level_to_rust_log("todos").starts_with("info,ionconnect_core=trace"));
}

#[test]
fn the_monitor_follows_peers_files_and_status() {
    let mut monitor = CoreMonitor::new();
    let (line, status) = monitor.on_line("\x1b[32mINFO\x1b[0m peer autenticado device_id=abc name=\"mi pc\"");
    assert_eq!(line, "INFO peer autenticado device_id=abc name=\"mi pc\"");
    assert_eq!(status, Some("connected"));
    assert_eq!(monitor.status, "connected");
    assert_eq!(monitor.peers.len(), 1);
    assert_eq!(monitor.peers[0].name, "mi pc");
    monitor.on_line("peer autenticado device_id=abc name=otra");
    assert_eq!(monitor.peers.len(), 1);
    monitor.on_line("peer desconectado device_id=abc");
    assert!(monitor.peers.is_empty());

    monitor.on_line("conectado al servidor server=cli");
    monitor.on_line("conectado al servidor");
    assert_eq!(monitor.peers.len(), 1);
    assert_eq!(monitor.peers[0].device_id, "server");
    assert_eq!(monitor.peers[0].name, "Servidor");
    monitor.on_line("reintentando conexión");
    assert!(monitor.peers.is_empty());

    monitor.on_line("archivo recibido path=/tmp/a b.txt");
    monitor.on_line("archivo recibido path=/tmp/a b.txt");
    assert_eq!(monitor.received_files, vec!["/tmp/a b.txt".to_string()]);

    monitor.on_line("enviando archivo size=3 name=x.txt");
    assert_eq!(monitor.sent_files.len(), 1);
    assert!(!monitor.sent_files[0].done);
    monitor.on_line("archivo enviado name=x.txt");
    assert!(monitor.sent_files[0].done);
    monitor.on_line("error leyendo el archivo name=y.txt");
    assert_eq!(monitor.sent_files.len(), 2);
    assert!(monitor.sent_files[1].failed);
    let devices = monitor.devices();
    assert!(devices.is_empty());
}

#[test]
fn the_log_keeps_only_the_newest_lines() {
    let mut monitor = CoreMonitor::new();
    for i in 0..(CORE_LOG_CAPACITY + 5) {
        monitor.on_line(&format!("línea {i}"));
    }
    assert_eq!(monitor.log.len(), CORE_LOG_CAPACITY);
    assert_eq!(monitor.log[0], "línea 5");
    assert_eq!(monitor.log[CORE_LOG_CAPACITY - 1], format!("línea {}", CORE_LOG_CAPACITY + 4));
}

#[test]
fn sending_files_needs_a_running_connected_service() {
    assert_eq!(send_files_refusal(0, true, 1), Some("No se seleccionó ningún archivo."));
    assert_eq!(
        send_files_refusal(2, false, 1),
        Some("El servicio no está corriendo. Tocá «Conectar» primero.")
    );
    assert!(send_files_refusal(2, true, 0).is_some());
    assert_eq!(send_files_refusal(2, true, 1), None);
    assert_eq!(sending_summary(1), "Enviando 1 archivo al otro equipo…");
    assert_eq!(sending_summary(3), "Enviando 3 archivos al otro equipo…");
}
