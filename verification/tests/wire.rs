use gens_relay::json::parse;
use gens_relay::listing::{DirEntry, FileStat, Found};
use gens_relay::wire::{
    answer, answer_below, download_request_text, file_notice_text, listing_answer_text,
    listing_request_text, read_message, understand, PeerMessage,
};

#[test]
fn requests_are_written_as_json() {
    assert_eq!(listing_request_text("/tmp"), "{\"path\":\"/tmp\",\"type\":\"ls\"}");
    assert_eq!(
        download_request_text("/tmp/a \"b\""),
        "{\"path\":\"/tmp/a \\\"b\\\"\",\"type\":\"download_req\"}"
    );
    assert_eq!(
        file_notice_text("a.bin", 42),
        "{\"name\":\"a.bin\",\"size\":42,\"type\":\"file_start\"}"
    );
}

#[test]
fn answers_are_written_as_json() {
    let entries = vec![
        DirEntry { name: "src".to_string(), is_dir: true, size: 4096 },
        DirEntry { name: "a".to_string(), is_dir: false, size: 7 },
    ];
    assert_eq!(
        listing_answer_text("/tmp/x", "/tmp", &entries),
        "{\"entries\":[{\"is_dir\":true,\"name\":\"src\",\"size\":4096},\
         {\"is_dir\":false,\"name\":\"a\",\"size\":7}],\
         \"parent\":\"/tmp\",\"path\":\"/tmp/x\",\"type\":\"ls_result\"}"
    );
}

#[test]
fn a_directory_is_answered_with_its_parent() {
    let found = || {
        vec![
            Found {
                name: "a".to_string(),
                stat: Some(FileStat { is_dir: false, size: 7, modified: None }),
            },
            Found { name: "gone".to_string(), stat: None },
        ]
    };
    let want = "{\"entries\":[{\"is_dir\":false,\"name\":\"a\",\"size\":7}],\
                \"parent\":\"/tmp\",\"path\":\"/tmp/x\",\"type\":\"ls_result\"}";
    assert_eq!(answer("/tmp/x", found()), want);
    assert_eq!(answer_below("/tmp/x", Some("/tmp".to_string()), found()), want);
    assert_eq!(
        answer("/", vec![]),
        "{\"entries\":[],\"parent\":\"\",\"path\":\"/\",\"type\":\"ls_result\"}"
    );
}

#[test]
fn what_is_written_is_understood() {
    assert!(matches!(
        read_message(&listing_request_text("/a\nb")),
        PeerMessage::ListingRequest { path: Some(p) } if p == "/a\nb"
    ));
    assert!(matches!(
        read_message(&download_request_text("é")),
        PeerMessage::DownloadRequest { path: Some(p) } if p == "é"
    ));
    assert!(matches!(
        read_message(&file_notice_text("n", 1)),
        PeerMessage::FileNotice { name: Some(n) } if n == "n"
    ));
    match read_message(&listing_answer_text("p", "q", &vec![])) {
        PeerMessage::ListingAnswer { answer } => {
            assert_eq!(answer.text("path"), Some("p".to_string()));
            assert_eq!(answer.text("parent"), Some("q".to_string()));
            assert_eq!(answer.list("entries").unwrap().len(), 0);
        }
        other => panic!("{:?}", other),
    }
}

#[test]
fn requests_may_lack_what_they_ask_for() {
    assert!(matches!(
        read_message("{\"type\": \"ls\"}"),
        PeerMessage::ListingRequest { path: None }
    ));
    assert!(matches!(
        read_message("{\"type\": \"download_req\", \"path\": 3}"),
        PeerMessage::DownloadRequest { path: None }
    ));
    assert!(matches!(
        read_message("{\"type\": \"file_start\"}"),
        PeerMessage::FileNotice { name: None }
    ));
}

#[test]
fn every_other_text_is_chat() {
    for text in ["hello", "", "42", "{}", "{\"type\": \"LS\"}", "{\"type\": 1}", "[\"ls\"]"] {
        assert!(matches!(read_message(text), PeerMessage::Chat), "{:?}", text);
    }
    assert!(matches!(understand(None), PeerMessage::Chat));
    assert!(matches!(
        understand(parse("{\"type\": \"ls\", \"path\": \"\"}")),
        PeerMessage::ListingRequest { path: Some(p) } if p.is_empty()
    ));
}
