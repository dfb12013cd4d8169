use chatlog::extract::Extractor;
use chatlog::render::{render_table, render_text, table_row, TableRow};

const SERVER_LINE: &str = "[05Jul2025 12:41:12.295] [Server thread/INFO] [net.minecraft.server.MinecraftServer/]: <Alice> hi";
const CLIENT_LINE: &str = "[16:53:50] [Render thread/INFO] [minecraft/ChatComponent]: [CHAT] <Bob> yo";

#[test]
fn time_only_record_has_an_empty_date() {
    let record = Extractor::new().unwrap().extract(CLIENT_LINE).unwrap();
    let row = table_row(&record);
    assert_eq!(
        (row.date.as_str(), row.time.as_str(), row.msg.as_str()),
        ("", "16:53:50", "<Bob> yo")
    );
}

#[test]
fn dated_record_has_date_and_time() {
    let record = Extractor::new().unwrap().extract(SERVER_LINE).unwrap();
    assert_eq!(
        table_row(&record),
        TableRow {
            date: "05Jul2025".to_string(),
            time: "12:41:12.295".to_string(),
            msg: "<Alice> hi".to_string(),
        }
    );
}

#[test]
fn table_starts_with_the_header() {
    let record = Extractor::new().unwrap().extract(CLIENT_LINE).unwrap();
    let rows = render_table(&[&record]).unwrap();
    assert_eq!(rows.len(), 2);
    assert_eq!(
        (rows[0].date.as_str(), rows[0].time.as_str(), rows[0].msg.as_str()),
        ("date", "time", "msg")
    );
}

#[test]
fn cells_are_not_escaped() {
    let extractor = Extractor::new().unwrap();
    let line = "[16:53:50] [Render thread/INFO] [minecraft/ChatComponent]: [CHAT] <Bob> a, \"quoted\", b";
    let record = extractor.extract(line).unwrap();
    assert_eq!(table_row(&record).msg, "<Bob> a, \"quoted\", b");
    assert_eq!(render_text(&[&record]).unwrap(), "16:53:50 <Bob> a, \"quoted\", b\n");
}

#[test]
fn a_timestamp_of_several_words_keeps_them_in_the_time() {
    let extractor = Extractor::new().unwrap();
    let line = "[05Jul2025 12:41:12.295 UTC] [Server thread/INFO] [net.minecraft.server.MinecraftServer/]: <Alice> hi";
    let record = extractor.extract(line).unwrap();
    assert_eq!(record.timestamp_parts(), &vec!["05Jul2025", "12:41:12.295 UTC"]);
    let row = table_row(&record);
    assert_eq!((row.date.as_str(), row.time.as_str()), ("05Jul2025", "12:41:12.295 UTC"));
    assert_eq!(record.display_text(), "05Jul2025 12:41:12.295 UTC <Alice> hi");
}

#[test]
fn text_output_is_one_line_per_record() {
    let extractor = Extractor::new().unwrap();
    let first = extractor.extract(SERVER_LINE).unwrap();
    let second = extractor.extract(CLIENT_LINE).unwrap();
    assert_eq!(
        render_text(&[&first, &second]).unwrap(),
        "05Jul2025 12:41:12.295 <Alice> hi\n16:53:50 <Bob> yo\n"
    );
    assert_eq!(
        render_text(&[&second, &first, &second]).unwrap(),
        "16:53:50 <Bob> yo\n05Jul2025 12:41:12.295 <Alice> hi\n16:53:50 <Bob> yo\n"
    );
}
