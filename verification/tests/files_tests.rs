use ionconnect::file_transfer::{
    after_read, candidate_name, unique_name, file_offer, mime_from_ext, part_file_name, sanitize_name, FileMessage,
    IncomingFiles,
};

#[test]
fn sanitize_name_keeps_only_the_final_component() {
    assert_eq!(sanitize_name("../../etc/passwd"), "passwd");
    assert_eq!(sanitize_name("/tmp/foo/bar.txt"), "bar.txt");
    assert_eq!(sanitize_name(".."), "archivo");
    assert_eq!(sanitize_name(""), "archivo");
    assert_eq!(sanitize_name("normal.png"), "normal.png");
}

#[test]
fn sanitize_name_handles_odd_names() {
    assert_eq!(sanitize_name("dir/."), "dir");
    assert_eq!(sanitize_name("a/b/.."), "archivo");
    assert_eq!(sanitize_name("  espacios.txt  "), "espacios.txt");
    assert_eq!(sanitize_name("c:\\windows\\x.exe"), "c:_windows_x.exe");
    assert_eq!(sanitize_name("nul\0byte"), "nul_byte");
    assert_eq!(sanitize_name("/"), "archivo");
    assert_eq!(sanitize_name(" . "), "archivo");
}

#[test]
fn unique_path_candidates_number_the_stem() {
    assert_eq!(candidate_name("a.txt", 1), "a (1).txt");
    assert_eq!(candidate_name("a.txt", 2), "a (2).txt");
    assert_eq!(candidate_name("archivo", 3), "archivo (3)");
    assert_eq!(candidate_name(".bashrc", 1), ".bashrc (1)");
    assert_eq!(candidate_name("foto.tar.gz", 12), "foto.tar (12).gz");
    assert_eq!(candidate_name("punto.", 1), "punto (1).");
}

#[test]
fn part_files_carry_the_transfer_id() {
    assert_eq!(part_file_name("saludo.txt", 42), "saludo.txt.42.part");
}

#[test]
fn mime_types_come_from_the_extension() {
    assert_eq!(mime_from_ext("/x/foto.PNG"), "image/png");
    assert_eq!(mime_from_ext("a.jpeg"), "image/jpeg");
    assert_eq!(mime_from_ext("notas.md"), "text/plain");
    assert_eq!(mime_from_ext("video.MkV"), "video/x-matroska");
    assert_eq!(mime_from_ext("sin_extension"), "application/octet-stream");
    assert_eq!(mime_from_ext(".png"), "application/octet-stream");
    assert_eq!(mime_from_ext("raro.xyz"), "application/octet-stream");
}

#[test]
fn send_file_emits_offer_then_chunks_then_end() {
    let offer = file_offer("/tmp/dir/origen.dat", 42, 132_306);
    assert_eq!(offer.transfer_id, 42);
    assert_eq!(offer.name, "origen.dat");
    assert_eq!(offer.total_size, 132_306);
    assert_eq!(offer.mime, "application/octet-stream");

    let (chunk, more) = after_read(42, Ok(vec![0xAB; 10]));
    assert!(more);
    assert!(matches!(chunk, FileMessage::Chunk { transfer_id: 42, ref data } if data.len() == 10));
    let (end, more) = after_read(42, Ok(Vec::new()));
    assert!(!more);
    assert!(matches!(end, FileMessage::End { transfer_id: 42 }));
    let (abort, more) = after_read(42, Err("disco".to_string()));
    assert!(!more);
    assert!(matches!(abort, FileMessage::Abort { transfer_id: 42, ref reason } if reason == "disco"));
}

#[test]
fn receiver_reassembles_a_file_from_chunks() {
    let mut incoming = IncomingFiles::new();
    let name = sanitize_name("saludo.txt");
    let part = part_file_name(&name, 1);
    incoming.register(1, name, part, 11);
    assert!(incoming.is_active(1));
    // "hola " and "mundo": 10 bytes against the 11 announced.
    assert!(incoming.on_chunk(1, b"hola ".len() as u64, true).is_none());
    assert!(incoming.on_chunk(1, b"mundo".len() as u64, true).is_none());
    let done = incoming.take(1).expect("la transferencia debería completarse");
    assert_eq!(done.final_name, "saludo.txt");
    assert_eq!(done.part_name, "saludo.txt.1.part");
    assert_eq!(done.received, 10);
    // The size differs from the announced one, and the file is kept all the same.
    assert!(done.size_mismatch());
    assert!(!incoming.is_active(1));
    assert!(incoming.abort_all().is_empty());
}

#[test]
fn abort_discards_the_partial_file() {
    let mut incoming = IncomingFiles::new();
    incoming.register(7, "incompleto.bin".to_string(), "incompleto.bin.7.part".to_string(), 100);
    incoming.add_received(7, 10);
    let aborted = incoming.take(7).expect("estaba activa");
    assert!(aborted.size_mismatch());
    assert!(incoming.take(7).is_none());
    incoming.add_received(7, 10);
    assert!(!incoming.is_active(7));
}

#[test]
fn closing_the_session_discards_every_partial_file() {
    let mut incoming = IncomingFiles::new();
    incoming.register(1, "a".to_string(), "a.1.part".to_string(), 0);
    incoming.register(2, "b".to_string(), "b.2.part".to_string(), 0);
    incoming.register(1, "c".to_string(), "c.1.part".to_string(), 0);
    let mut all: Vec<String> = incoming.abort_all().into_iter().map(|p| p.part_name).collect();
    all.sort();
    assert_eq!(all, vec!["b.2.part".to_string(), "c.1.part".to_string()]);
    assert!(!incoming.is_active(1));
}

#[test]
fn a_failed_chunk_write_drops_the_transfer() {
    let mut incoming = IncomingFiles::new();
    incoming.register(3, "foto.png".to_string(), "foto.png.3.part".to_string(), 20);
    assert!(incoming.on_chunk(3, 8, true).is_none());
    assert!(incoming.on_chunk(9, 8, false).is_none());
    let dropped = incoming.on_chunk(3, 8, false).expect("la transferencia estaba activa");
    assert_eq!(dropped.part_name, "foto.png.3.part");
    assert_eq!(dropped.received, 8);
    assert!(!incoming.is_active(3));
    assert!(incoming.on_chunk(3, 8, true).is_none());
    assert!(!incoming.is_active(3));
}

#[test]
fn unique_path_does_not_clobber_existing_files() {
    let mut existing: Vec<String> = vec!["a.txt".to_string()];
    assert_eq!(unique_name("a.txt", |n: &str| existing.iter().any(|e| e == n)), "a (1).txt");
    existing.push("a (1).txt".to_string());
    assert_eq!(unique_name("a.txt", |n: &str| existing.iter().any(|e| e == n)), "a (2).txt");
    assert_eq!(unique_name("libre.txt", |n: &str| existing.iter().any(|e| e == n)), "libre.txt");
}

#[test]
fn unique_name_gives_up_when_every_alternative_is_taken() {
    assert_eq!(unique_name("lleno.bin", |_: &str| true), "lleno.bin");
}

#[test]
fn received_reports_the_bytes_counted_so_far() {
    let mut incoming = IncomingFiles::new();
    assert_eq!(incoming.received(5), None);
    incoming.register(5, "datos.csv".to_string(), "datos.csv.5.part".to_string(), 0);
    assert_eq!(incoming.received(5), Some(0));
    incoming.add_received(5, 40);
    assert!(incoming.on_chunk(5, 2, true).is_none());
    assert_eq!(incoming.received(5), Some(42));
}
