use authority::codec::{decode_batch, decode_confirmation, encode_batch, encode_confirmation, ConfirmationMessage};
use authority::confirms::{
    confirmation_email_text, confirmation_message, confirmation_payload, confirmation_queue,
    confirmation_sms_text,
};
use authority::errors::Error;
use authority::gateway::Client;
use authority::harness::Delivery;
use authority::importer::{BatchPublisher, Importer};
use authority::models::{AccessLevel, Login};
use authority::shop::{
    delete_response, found_response, ListQuery, NewProduct, ProductStore, Server, Service,
    ServiceHandler,
};

fn product(code: &str, name: &str, category: &str) -> NewProduct {
    NewProduct { name: name.to_string(), code: code.to_string(), category: category.to_string() }
}

#[test]
fn product_store_round_of_operations() {
    let mut store = ProductStore::new();
    let a = store.add_product(product("c1", "first", "k")).unwrap();
    let b = store.add_product(product("c2", "second", "k")).unwrap();
    assert_eq!(a.id, 1);
    assert_eq!(b.id, 2);

    let got = store.get_product(a.id).unwrap().unwrap();
    assert_eq!(got.code, "c1");
    assert!(store.get_product(77).unwrap().is_none());

    let updated = store.update_product(a.id, product("c1", "renamed", "k")).unwrap();
    assert_eq!(updated.name, "renamed");
    assert_eq!(store.get_product(a.id).unwrap().unwrap().name, "renamed");

    assert_eq!(store.remove_product(a.id).unwrap(), 1);
    assert_eq!(store.remove_product(a.id).unwrap(), 0);
}

#[test]
fn update_inserts_missing_rows_in_order() {
    let mut store = ProductStore::new();
    store.update_product(10, product("x", "ten", "k")).unwrap();
    store.update_product(5, product("y", "five", "k")).unwrap();
    let (count, page) = store.list_products(ListQuery { limit: None, offset: None }).unwrap();
    assert_eq!(count, 2);
    assert_eq!(page[0].id, 5);
    assert_eq!(page[1].id, 10);
}

#[test]
fn list_products_pages_with_total_count() {
    let mut store = ProductStore::new();
    for k in 0..4 {
        store.add_product(product(&format!("c{}", k), "n", "k")).unwrap();
    }
    let (count, page) = store
        .list_products(ListQuery { limit: Some(2), offset: Some(1) })
        .unwrap();
    // the count is the whole table, not the page
    assert_eq!(count, 4);
    assert_eq!(page.len(), 2);
    assert_eq!(page[0].id, 2);
    assert_eq!(page[1].id, 3);
    let bad = store.list_products(ListQuery { limit: Some(-1), offset: None });
    assert!(bad.is_err());
}

#[test]
fn role_gates_on_catalog_operations() {
    let mut store = ProductStore::new();
    let user = ServiceHandler { role: AccessLevel::User };
    let admin = ServiceHandler { role: AccessLevel::Admin };

    // a User-role caller is rejected by the Admin-gated operations
    assert_eq!(
        user.add_product(&mut store, product("c", "n", "k")).unwrap_err(),
        Error::Unauthorized
    );
    assert_eq!(user.remove_product(&mut store, 1).unwrap_err(), Error::Unauthorized);
    assert_eq!(
        user.update_product(&mut store, 1, product("c", "n", "k")).unwrap_err(),
        Error::Unauthorized
    );

    // an Admin-role caller passes both Admin- and User-gated operations
    let added = admin.add_product(&mut store, product("c", "n", "k")).unwrap();
    assert!(admin.get_product(&store, added.id).unwrap().is_some());
    assert!(admin.list_products(&store, ListQuery { limit: None, offset: None }).is_ok());

    // a User-role caller passes the User-gated reads
    assert!(user.get_product(&store, added.id).unwrap().is_some());
    assert!(user.list_products(&store, ListQuery { limit: None, offset: None }).is_ok());

    assert!(user.assert_role(AccessLevel::User).is_ok());
    assert_eq!(user.assert_role(AccessLevel::Admin).unwrap_err(), Error::Unauthorized);
    assert!(admin.assert_role(AccessLevel::User).is_ok());
}

#[test]
fn handler_for_requires_a_granted_role() {
    let service = Service::new(Client::new("auth:1").unwrap());
    let h = service.handler_for(Some(AccessLevel::Admin)).unwrap();
    assert!(matches!(h.role, AccessLevel::Admin));
    assert!(matches!(service.handler_for(None), Err(Error::Unauthorized)));
    let server = Server::new(service);
    assert_eq!(server.shop.auth.endpoint, "http://auth:1");
}

#[test]
fn confirmation_codec_round_trips() {
    let msg = ConfirmationMessage {
        login: "weird@exämple.com".to_string(),
        url: "https://hw.sskvor.dev/v1/confirm?token=abc".to_string(),
    };
    let bytes = encode_confirmation(&msg);
    let back = decode_confirmation(&bytes).unwrap();
    assert_eq!(back.login, msg.login);
    assert_eq!(back.url, msg.url);
}

#[test]
fn confirmation_codec_rejects_malformed_input() {
    assert!(decode_confirmation(&vec![]).is_none());
    assert!(decode_confirmation(&vec![1, 2, 3]).is_none());
    // a one-byte field that is not UTF-8
    let bad = vec![1, 0, 0, 0, 0, 0, 0, 0, 0xff];
    assert!(decode_confirmation(&bad).is_none());
    // trailing bytes after a well-formed notice are refused
    let msg = ConfirmationMessage { login: "a".to_string(), url: "b".to_string() };
    let mut bytes = encode_confirmation(&msg);
    bytes.push(0);
    assert!(decode_confirmation(&bytes).is_none());
}

#[test]
fn batch_codec_round_trips() {
    let batch = vec![product("c1", "n1", "k1"), product("c2", "nä2", "k2")];
    let bytes = encode_batch(&batch);
    let back = decode_batch(&bytes).unwrap();
    assert_eq!(back.len(), 2);
    assert_eq!(back[0].code, "c1");
    assert_eq!(back[0].name, "n1");
    assert_eq!(back[0].category, "k1");
    assert_eq!(back[1].name, "nä2");
    // truncated input is refused
    let cut = bytes[..bytes.len() - 1].to_vec();
    assert!(decode_batch(&cut).is_none());
}

#[test]
fn importer_loads_decoded_batches() {
    let importer = Importer::new("amqp://broker", "products");
    assert_eq!(importer.rc.queue_name, "products");
    let mut handler = importer.make_handler(ProductStore::new());

    let payload = encode_batch(&vec![product("c1", "n1", "k"), product("c2", "n2", "k")]);
    let delivery = Delivery { data: payload, delivery_tag: 1 };
    assert!(handler.consume(&delivery).is_ok());
    assert_eq!(handler.store.products.len(), 2);
    assert_eq!(handler.store.products[0].code, "c1");
    assert_eq!(handler.store.products[1].code, "c2");

    // an undecodable payload is rejected and loads nothing
    let garbage = Delivery { data: vec![9, 9], delivery_tag: 2 };
    assert_eq!(handler.consume(&garbage).unwrap_err(), Error::InvalidInput);
    assert_eq!(handler.store.products.len(), 2);
}

#[test]
fn batch_publisher_flushes_at_its_size() {
    let mut publisher = BatchPublisher::new(2);
    assert!(publisher.submit(product("c1", "n1", "k")).is_none());
    let flushed = publisher.submit(product("c2", "n2", "k")).unwrap();
    let decoded = decode_batch(&flushed).unwrap();
    assert_eq!(decoded.len(), 2);
    assert_eq!(decoded[1].code, "c2");

    assert!(publisher.finish().is_none());
    assert!(publisher.submit(product("c3", "n3", "k")).is_none());
    let rest = publisher.finish().unwrap();
    assert_eq!(decode_batch(&rest).unwrap().len(), 1);
}

#[test]
fn confirmation_dispatch_compute_side() {
    let email = Login::Email("a@example.com".to_string());
    let phone = Login::Phone("12345".to_string());
    assert_eq!(confirmation_queue(&email), "confirmations_email");
    assert_eq!(confirmation_queue(&phone), "confirmations_phone");

    let token = "t0k3n".to_string();
    let msg = confirmation_message(&email, &token);
    assert_eq!(msg.login, "a@example.com");
    assert_eq!(msg.url, "https://hw.sskvor.dev/v1/confirm?token=t0k3n");

    let (queue, bytes) = confirmation_payload(&phone, &token);
    assert_eq!(queue, "confirmations_phone");
    let back = decode_confirmation(&bytes).unwrap();
    assert_eq!(back.login, "12345");
    assert_eq!(back.url, "https://hw.sskvor.dev/v1/confirm?token=t0k3n");

    assert_eq!(
        confirmation_email_text(&msg.url),
        "Visit https://hw.sskvor.dev/v1/confirm?token=t0k3n to confirm your email"
    );
    assert_eq!(
        confirmation_sms_text(&msg.url),
        "Visit https://hw.sskvor.dev/v1/confirm?token=t0k3n to confirm your phone"
    );
}

#[test]
fn boundary_verdicts_report_absence_as_not_found() {
    assert!(delete_response(1).is_ok());
    assert!(matches!(delete_response(0), Err(Error::NotFound)));

    let mut store = ProductStore::new();
    let added = store.add_product(product("c", "n", "k")).unwrap();
    let hit = found_response(store.get_product(added.id).unwrap()).unwrap();
    assert_eq!(hit.id, added.id);
    assert!(matches!(
        found_response(store.get_product(99).unwrap()),
        Err(Error::NotFound)
    ));
}
