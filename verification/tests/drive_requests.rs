use uds::gapi::{
    CreateResponse, DriveApi, File, HttpMethod, ListResponse, Properties, RequestBody, RootFolder,
};

fn api() -> DriveApi {
    let mut api = DriveApi::new("TOKEN".to_string());
    api.set_root_folder_id("ROOT".to_string());
    api
}

fn json_body(body: &RequestBody) -> String {
    match body {
        RequestBody::Json(b) => b.clone(),
        other => panic!("not a JSON body: {:?}", other),
    }
}

#[test]
fn new_api_has_no_root_folder() {
    let api = DriveApi::new("t".to_string());
    assert_eq!(api.root_folder_id(), "");
}

#[test]
fn root_folder_request() {
    let r = api().create_root_folder();
    assert_eq!(r.method, HttpMethod::Post);
    assert_eq!(r.url, "https://content.googleapis.com/drive/v3/files?access_token=TOKEN");
    let body = json_body(&r.body);
    assert_eq!(
        body,
        "{\"mimeType\":\"application/vnd.google-apps.folder\",\"name\":\"UDS root\",\"properties\":{\"udsRoot\":true}}"
    );
    let value: serde_json::Value = serde_json::from_str(&body).unwrap();
    assert_eq!(serde_json::to_string(&value).unwrap(), body);
}

#[test]
fn media_folder_request() {
    let props = Properties {
        size: "5".to_string(),
        encoded_size: "5".to_string(),
        md5: "5d41402abc4b2a76b9719d911017c592".to_string(),
    };
    let r = api().create_media_folder("dir/a \"b\".txt", &props);
    assert_eq!(r.method, HttpMethod::Post);
    assert_eq!(r.url, "https://content.googleapis.com/drive/v3/files?access_token=TOKEN");
    let body = json_body(&r.body);
    assert_eq!(
        body,
        "{\"mimeType\":\"application/vnd.google-apps.folder\",\"name\":\"dir/a \\\"b\\\".txt\",\"parents\":[\"ROOT\"],\"properties\":{\"encoded_size\":\"5\",\"md5\":\"5d41402abc4b2a76b9719d911017c592\",\"size\":\"5\",\"uds\":true}}"
    );
    let value: serde_json::Value = serde_json::from_str(&body).unwrap();
    assert_eq!(value["name"], "dir/a \"b\".txt");
    assert_eq!(serde_json::to_string(&value).unwrap(), body);
}

#[test]
fn document_request() {
    let r = api().create_document("FOLDER", "1000000".to_string(), "aGVsbG8=".to_string());
    assert_eq!(r.method, HttpMethod::Post);
    assert_eq!(
        r.url,
        "https://www.googleapis.com/upload/drive/v3/files?uploadType=multipart&access_token=TOKEN"
    );
    match &r.body {
        RequestBody::Multipart(parts) => {
            assert_eq!(parts.len(), 2);
            assert_eq!(parts[0].mime, "application/json; charset=UTF-8");
            assert_eq!(
                parts[0].content,
                "{\"mimeType\":\"application/vnd.google-apps.document\",\"name\":\"1000000\",\"parents\":[\"FOLDER\"],\"properties\":{\"part\":\"content\"}}"
            );
            let value: serde_json::Value = serde_json::from_str(&parts[0].content).unwrap();
            assert_eq!(serde_json::to_string(&value).unwrap(), parts[0].content);
            assert_eq!(parts[1].mime, "text/plain");
            assert_eq!(parts[1].content, "aGVsbG8=");
        }
        other => panic!("not multipart: {:?}", other),
    }
}

#[test]
fn listing_requests() {
    let a = api();
    let r = a.list_files("q", "f");
    assert_eq!(r.method, HttpMethod::Get);
    assert!(matches!(r.body, RequestBody::Empty));
    assert_eq!(
        r.url,
        "https://content.googleapis.com/drive/v3/files?access_token=TOKEN&q=q&fields=f&pageSize=1000"
    );
    assert_eq!(
        a.find_file_chunk("ID").url,
        "https://content.googleapis.com/drive/v3/files?access_token=TOKEN&q='ID' in parents and trashed=false&fields=files(id, name)&pageSize=1000"
    );
    assert_eq!(
        a.find_uploaded_files().url,
        "https://content.googleapis.com/drive/v3/files?access_token=TOKEN&q=properties has {key='uds' and value='true'} and trashed=false&fields=files(id, name, properties, mimeType)&pageSize=1000"
    );
    assert_eq!(
        a.find_root_folder().url,
        "https://content.googleapis.com/drive/v3/files?access_token=TOKEN&q=properties has {key='udsRoot' and value='true'} and trashed=false&fields=files(id)&pageSize=1000"
    );
}

fn file(id: &str) -> File {
    File { id: id.to_string(), mime_type: None, name: None, properties: None }
}

#[test]
fn root_folder_found_is_the_first() {
    let found = ListResponse { files: vec![file("first"), file("second")] };
    match api().create_or_find_root_folder(&found) {
        RootFolder::Found(id) => assert_eq!(id, "first"),
        other => panic!("unexpected {:?}", other),
    }
}

#[test]
fn root_folder_missing_is_created() {
    let found = ListResponse { files: vec![] };
    match api().create_or_find_root_folder(&found) {
        RootFolder::Create(r) => {
            let expected = api().create_root_folder();
            assert_eq!(r.url, expected.url);
            assert_eq!(json_body(&r.body), json_body(&expected.body));
        }
        other => panic!("unexpected {:?}", other),
    }
    let created = CreateResponse { id: "new".to_string() };
    let mut a = api();
    a.set_root_folder_id(created.id);
    assert_eq!(a.root_folder_id(), "new");
}

#[test]
fn delete_does_nothing() {
    DriveApi::delete_file();
}

#[test]
fn media_folder_is_not_root() {
    let props = Properties { size: "1".to_string(), encoded_size: "1".to_string(), md5: "m".to_string() };
    let body = json_body(&api().create_media_folder("f", &props).body);
    let value: serde_json::Value = serde_json::from_str(&body).unwrap();
    assert_eq!(value["parents"], serde_json::Value::Array(vec![serde_json::Value::from("ROOT")]));
    assert_eq!(value["properties"]["uds"], serde_json::Value::Bool(true));
    assert!(value["properties"].get("udsRoot").is_none());
    assert!(value.get("udsRoot").is_none());
    let root: serde_json::Value = serde_json::from_str(&json_body(&api().create_root_folder().body)).unwrap();
    assert_eq!(root["properties"]["udsRoot"], serde_json::Value::Bool(true));
}

#[test]
fn document_metadata_reads_back() {
    let r = api().create_document("p\"\\ü", "ord\ner".to_string(), "x".to_string());
    if let RequestBody::Multipart(parts) = &r.body {
        let value: serde_json::Value = serde_json::from_str(&parts[0].content).unwrap();
        assert_eq!(value["name"], "ord\ner");
        assert_eq!(value["parents"][0], "p\"\\ü");
        assert_eq!(value["properties"]["part"], "content");
        assert_eq!(value.as_object().unwrap().len(), 4);
    } else {
        panic!("not multipart");
    }
}
