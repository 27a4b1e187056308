use xparse::{
    string_to_char_array, CodecError, Employee, Header, Message, Order, Person, Side,
    EMPLOYEE_TYPE, ORDER_TYPE, PERSON_TYPE,
};

fn huey() -> Person {
    Person {
        id: 1234,
        name: string_to_char_array::<20>("Huey Lewis").unwrap(),
        age: None,
        city: None,
        is_student: false,
    }
}

fn full_person() -> Person {
    Person {
        id: -2,
        name: string_to_char_array::<20>("Ada").unwrap(),
        age: Some(-300),
        city: Some(string_to_char_array::<15>("Oslo").unwrap()),
        is_student: true,
    }
}

fn hematologist() -> Employee {
    Employee {
        employee_id: 7,
        employee_name: string_to_char_array::<25>("Grace Hopper").unwrap(),
        salary: -1,
        department: Some(string_to_char_array::<20>("Hematology").unwrap()),
        is_manager: true,
    }
}

fn demo_order() -> Order {
    Order {
        order_id: 123,
        price_bits: 3.14f64.to_bits(),
        account_id: Some(123),
        quantity: 123,
        order_side: Side::Buy,
        instrument_id: 123,
        symbol: None,
    }
}

fn padded_bytes(s: &str, width: usize) -> Vec<u8> {
    let mut out: Vec<u8> = s.bytes().collect();
    while out.len() < width {
        out.push(b' ');
    }
    out
}

#[test]
fn person_without_optionals_scenario() {
    let person = huey();
    let message = Message::Person(person);
    let bytes = message.serialize();
    let header = Header::decode(&bytes).unwrap();
    assert_eq!(header.bitmask, 0);
    assert_eq!(header.msg_type, 1);
    assert_eq!(header.msg_size, 34);
    assert_eq!(bytes.len(), 34);
    assert_eq!(Message::deserialize(&bytes), Ok(Message::Person(person)));
    assert_eq!(Person::deserialize(&bytes), Ok(person));
}

#[test]
fn person_without_optionals_exact_bytes() {
    let mut expected: Vec<u8> = vec![0, 0, 0, 34, 1, 0, 0, 0, 0];
    expected.extend_from_slice(&[0, 0, 0x04, 0xd2]);
    expected.extend_from_slice(&padded_bytes("Huey Lewis", 20));
    expected.push(0);
    assert_eq!(Message::Person(huey()).serialize(), expected);
    assert_eq!(huey().serialize(), expected[9..].to_vec());
}

#[test]
fn person_with_all_fields_exact_bytes() {
    let mut expected: Vec<u8> = vec![0, 0, 0, 51, 1, 0, 0, 0, 3];
    expected.extend_from_slice(&[0xff, 0xff, 0xff, 0xfe]);
    expected.extend_from_slice(&padded_bytes("Ada", 20));
    expected.push(1);
    expected.extend_from_slice(&[0xfe, 0xd4]);
    expected.extend_from_slice(&padded_bytes("Oslo", 15));
    let bytes = Message::Person(full_person()).serialize();
    assert_eq!(bytes, expected);
    assert_eq!(bytes.len(), 9 + Person::max_payload_size());
    assert_eq!(Message::deserialize(&bytes), Ok(Message::Person(full_person())));
}

#[test]
fn person_bitmask_follows_presence() {
    let mut person = huey();
    assert_eq!(person.get_bitmask(), 0);
    person.age = Some(30);
    assert_eq!(person.get_bitmask(), 1);
    person.city = Some(string_to_char_array::<15>("Reno").unwrap());
    assert_eq!(person.get_bitmask(), 3);
    person.age = None;
    assert_eq!(person.get_bitmask(), 2);
}

#[test]
fn person_payload_length_follows_presence() {
    let mut person = huey();
    assert_eq!(person.serialize().len(), 25);
    person.age = Some(30);
    assert_eq!(person.serialize().len(), 27);
    person.city = Some(string_to_char_array::<15>("Reno").unwrap());
    assert_eq!(person.serialize().len(), 42);
    person.age = None;
    assert_eq!(person.serialize().len(), 40);
}

#[test]
fn max_payload_sizes() {
    assert_eq!(Person::max_payload_size(), 42);
    assert_eq!(Employee::max_payload_size(), 54);
    assert_eq!(Order::max_payload_size(), 33);
}

#[test]
fn person_round_trips_in_every_shape() {
    let ages = [None, Some(0i16), Some(i16::MIN), Some(i16::MAX), Some(-1)];
    let cities = [
        None,
        Some(string_to_char_array::<15>("").unwrap()),
        Some(string_to_char_array::<15>("San Francisco  ").unwrap()),
        Some(string_to_char_array::<15>("Malm\u{f6}").unwrap()),
    ];
    let ids = [0, 1, -1, i32::MIN, i32::MAX, 1234];
    for age in ages {
        for city in cities {
            for id in ids {
                for is_student in [false, true] {
                    let person = Person {
                        id,
                        name: string_to_char_array::<20>("Huey Lewis").unwrap(),
                        age,
                        city,
                        is_student,
                    };
                    let payload = person.serialize();
                    assert_eq!(
                        Person::deserialize_payload(&payload, person.get_bitmask()),
                        Ok(person)
                    );
                    let bytes = Message::Person(person).serialize();
                    assert_eq!(Message::deserialize(&bytes), Ok(Message::Person(person)));
                    assert_eq!(Person::deserialize(&bytes), Ok(person));
                }
            }
        }
    }
}

#[test]
fn absent_age_takes_no_bytes() {
    // With bit 0 clear the city is read right after the mandatory fields.
    let person = Person {
        id: 5,
        name: string_to_char_array::<20>("Bo").unwrap(),
        age: None,
        city: Some(string_to_char_array::<15>("Rome").unwrap()),
        is_student: true,
    };
    let payload = person.serialize();
    assert_eq!(payload.len(), 40);
    assert_eq!(&payload[25..29], b"Rome");
    assert_eq!(Person::deserialize_payload(&payload, 2), Ok(person));
    // The same bytes under a mask that also claims an age are two bytes short.
    assert_eq!(
        Person::deserialize_payload(&payload, 3),
        Err(CodecError::TruncatedInput)
    );
}

#[test]
fn clear_bit_leaves_field_absent_even_if_bytes_follow() {
    let payload = full_person().serialize();
    let got = Person::deserialize_payload(&payload, 0).unwrap();
    assert_eq!(got.age, None);
    assert_eq!(got.city, None);
    assert_eq!(got.id, -2);
    assert!(got.is_student);
    let got = Person::deserialize_payload(&payload, 1).unwrap();
    assert_eq!(got.age, Some(-300));
    assert_eq!(got.city, None);
}

#[test]
fn person_payload_needs_every_byte() {
    let payload = full_person().serialize();
    assert_eq!(payload.len(), 42);
    for n in 0..42usize {
        assert_eq!(
            Person::deserialize_payload(&payload[..n], 3),
            Err(CodecError::TruncatedInput)
        );
    }
    for n in 0..25usize {
        assert_eq!(
            Person::deserialize_payload(&payload[..n], 0),
            Err(CodecError::TruncatedInput)
        );
    }
    assert!(Person::deserialize_payload(&payload[..25], 0).is_ok());
    assert!(Person::deserialize_payload(&payload[..27], 1).is_ok());
    assert!(Person::deserialize_payload(&payload[..26], 1).is_err());
    assert!(Person::deserialize_payload(&payload[..40], 2).is_ok());
    assert!(Person::deserialize_payload(&payload[..39], 2).is_err());
}

#[test]
fn high_bits_of_the_mask_are_ignored() {
    let person = full_person();
    let payload = person.serialize();
    assert_eq!(Person::deserialize_payload(&payload, 0xffff_ffff), Ok(person));
    assert_eq!(Person::deserialize_payload(&payload, 0x8000_0003), Ok(person));
    let plain = huey();
    assert_eq!(
        Person::deserialize_payload(&plain.serialize(), 0xffff_fffc),
        Ok(plain)
    );
}

#[test]
fn employee_with_department_scenario() {
    let employee = hematologist();
    assert_eq!(employee.get_bitmask() & 1, 1);
    let bytes = Message::Employee(employee).serialize();
    let header = Header::decode(&bytes).unwrap();
    assert_eq!(header.bitmask, 1);
    assert_eq!(header.msg_type, 2);
    let decoded = match Message::deserialize(&bytes) {
        Ok(Message::Employee(e)) => e,
        other => panic!("not an employee: {:?}", other),
    };
    let department: String = decoded.department.unwrap().iter().collect();
    assert_eq!(department, "Hematology          ");
    assert_eq!(decoded, employee);
}

#[test]
fn employee_exact_bytes() {
    let mut expected: Vec<u8> = vec![0, 0, 0, 63, 2, 0, 0, 0, 1];
    expected.extend_from_slice(&[0, 0, 0, 7]);
    expected.extend_from_slice(&padded_bytes("Grace Hopper", 25));
    expected.extend_from_slice(&[0xff, 0xff, 0xff, 0xff]);
    expected.push(1);
    expected.extend_from_slice(&padded_bytes("Hematology", 20));
    let bytes = Message::Employee(hematologist()).serialize();
    assert_eq!(bytes, expected);
    assert_eq!(hematologist().serialize(), expected[9..].to_vec());
}

#[test]
fn employee_without_department() {
    let mut employee = hematologist();
    employee.department = None;
    employee.is_manager = false;
    assert_eq!(employee.get_bitmask(), 0);
    let payload = employee.serialize();
    assert_eq!(payload.len(), 34);
    assert_eq!(Employee::deserialize_payload(&payload, 0), Ok(employee));
    assert_eq!(
        Employee::deserialize_payload(&payload, 1),
        Err(CodecError::TruncatedInput)
    );
    let bytes = Message::Employee(employee).serialize();
    assert_eq!(bytes.len(), 43);
    assert_eq!(&bytes[..9], &[0, 0, 0, 43, 2, 0, 0, 0, 0]);
    assert_eq!(Message::deserialize(&bytes), Ok(Message::Employee(employee)));
    assert_eq!(Employee::deserialize(&bytes), Ok(employee));
}

#[test]
fn employee_payload_needs_every_byte() {
    let payload = hematologist().serialize();
    assert_eq!(payload.len(), 54);
    for n in 0..54usize {
        assert_eq!(
            Employee::deserialize_payload(&payload[..n], 1),
            Err(CodecError::TruncatedInput)
        );
    }
    assert!(Employee::deserialize_payload(&payload[..34], 0).is_ok());
    assert!(Employee::deserialize_payload(&payload[..33], 0).is_err());
    assert_eq!(Employee::deserialize_payload(&payload, 0xffff_ffff), Ok(hematologist()));
}

#[test]
fn order_exact_bytes() {
    let mut expected: Vec<u8> = vec![0, 0, 0, 34, 3, 0, 0, 0, 1];
    expected.extend_from_slice(&[0, 0, 0, 123]);
    expected.extend_from_slice(&[0x40, 0x09, 0x1e, 0xb8, 0x51, 0xeb, 0x85, 0x1f]);
    expected.extend_from_slice(&[0, 0, 0, 123]);
    expected.push(1);
    expected.extend_from_slice(&[0, 0, 0, 123]);
    expected.extend_from_slice(&[0, 0, 0, 123]);
    let bytes = Message::Order(demo_order()).serialize();
    assert_eq!(bytes, expected);
    assert_eq!(demo_order().get_bitmask(), 1);
}

#[test]
fn order_round_trips_with_its_price() {
    let bytes = Message::Order(demo_order()).serialize();
    let decoded = match Message::deserialize(&bytes) {
        Ok(Message::Order(order)) => order,
        other => panic!("not an order: {:?}", other),
    };
    assert_eq!(decoded, demo_order());
    assert_eq!(f64::from_bits(decoded.price_bits), 3.14);
    assert_eq!(Order::deserialize(&bytes), Ok(demo_order()));
}

#[test]
fn order_price_bits_survive_whatever_they_are() {
    for price in [0.0f64, -0.0, 1.5, -2.25, f64::MAX, f64::MIN_POSITIVE, f64::INFINITY, f64::NAN] {
        let mut order = demo_order();
        order.price_bits = price.to_bits();
        let payload = order.serialize();
        assert_eq!(&payload[4..12], &price.to_be_bytes());
        let back = Order::deserialize_payload(&payload, order.get_bitmask()).unwrap();
        assert_eq!(back.price_bits, price.to_bits());
    }
}

#[test]
fn order_round_trips_in_every_shape() {
    let accounts = [None, Some(0u32), Some(u32::MAX)];
    let symbols = [
        None,
        Some(string_to_char_array::<8>("ACME").unwrap()),
        Some(string_to_char_array::<8>("ABCDEFGH").unwrap()),
    ];
    for account_id in accounts {
        for symbol in symbols {
            for order_side in [Side::Buy, Side::Sell] {
                let order = Order {
                    order_id: 0xdead_beef,
                    price_bits: 0x0123_4567_89ab_cdef,
                    account_id,
                    quantity: 1,
                    order_side,
                    instrument_id: u32::MAX,
                    symbol,
                };
                let expected_mask =
                    (account_id.is_some() as u32) | ((symbol.is_some() as u32) << 1);
                assert_eq!(order.get_bitmask(), expected_mask);
                let payload = order.serialize();
                assert_eq!(
                    payload.len(),
                    21 + if account_id.is_some() { 4 } else { 0 }
                        + if symbol.is_some() { 8 } else { 0 }
                );
                assert_eq!(Order::deserialize_payload(&payload, expected_mask), Ok(order));
                let bytes = Message::Order(order).serialize();
                assert_eq!(bytes.len(), 9 + payload.len());
                assert_eq!(Message::deserialize(&bytes), Ok(Message::Order(order)));
            }
        }
    }
}

#[test]
fn order_with_bad_side_tag_is_refused() {
    let mut bytes = Message::Order(demo_order()).serialize();
    for tag in [0u8, 3, 0x42, 0xff] {
        bytes[9 + 16] = tag;
        assert_eq!(Message::deserialize(&bytes), Err(CodecError::InvalidEnumTag));
        assert_eq!(Order::deserialize(&bytes), Err(CodecError::InvalidEnumTag));
        assert_eq!(
            Order::deserialize_payload(&bytes[9..], 1),
            Err(CodecError::InvalidEnumTag)
        );
    }
    bytes[9 + 16] = 2;
    let mut sold = demo_order();
    sold.order_side = Side::Sell;
    assert_eq!(Message::deserialize(&bytes), Ok(Message::Order(sold)));
}

#[test]
fn order_errors_come_in_wire_order() {
    let mut payload = demo_order().serialize();
    payload[16] = 9;
    // The side's byte is not there yet: truncated.
    assert_eq!(
        Order::deserialize_payload(&payload[..16], 1),
        Err(CodecError::TruncatedInput)
    );
    // The side's byte is there and bad; that the rest is missing comes second.
    assert_eq!(
        Order::deserialize_payload(&payload[..17], 1),
        Err(CodecError::InvalidEnumTag)
    );
    payload[16] = 1;
    assert_eq!(
        Order::deserialize_payload(&payload[..17], 1),
        Err(CodecError::TruncatedInput)
    );
    assert_eq!(
        Order::deserialize_payload(&payload[..24], 1),
        Err(CodecError::TruncatedInput)
    );
    assert_eq!(Order::deserialize_payload(&payload[..25], 1), Ok(demo_order()));
}

#[test]
fn message_shorter_than_a_header_is_truncated() {
    let bytes = Message::Person(huey()).serialize();
    for n in 0..9usize {
        assert_eq!(
            Message::deserialize(&bytes[..n]),
            Err(CodecError::TruncatedInput)
        );
        assert_eq!(Person::deserialize(&bytes[..n]), Err(CodecError::TruncatedInput));
        assert_eq!(
            Employee::deserialize(&bytes[..n]),
            Err(CodecError::TruncatedInput)
        );
        assert_eq!(Order::deserialize(&bytes[..n]), Err(CodecError::TruncatedInput));
    }
}

#[test]
fn header_claiming_missing_optionals_is_truncated() {
    // A person without optional fields, under a header that claims both.
    let mut bytes = Message::Person(huey()).serialize();
    bytes[8] = 3;
    assert_eq!(Message::deserialize(&bytes), Err(CodecError::TruncatedInput));
    bytes[8] = 1;
    assert_eq!(Message::deserialize(&bytes), Err(CodecError::TruncatedInput));
    bytes[8] = 2;
    assert_eq!(Message::deserialize(&bytes), Err(CodecError::TruncatedInput));
    bytes[8] = 0;
    assert_eq!(Message::deserialize(&bytes), Ok(Message::Person(huey())));
}

#[test]
fn message_cut_anywhere_is_truncated() {
    let messages = [
        Message::Person(full_person()),
        Message::Employee(hematologist()),
        Message::Order(demo_order()),
    ];
    for message in messages {
        let bytes = message.serialize();
        for n in 0..bytes.len() {
            assert_eq!(
                Message::deserialize(&bytes[..n]),
                Err(CodecError::TruncatedInput)
            );
        }
        assert_eq!(Message::deserialize(&bytes), Ok(message));
    }
}

#[test]
fn unknown_tag_is_refused() {
    let mut bytes = Message::Person(full_person()).serialize();
    for tag in [0u8, 4, 5, 0x7f, 0xff] {
        bytes[4] = tag;
        assert_eq!(
            Message::deserialize(&bytes),
            Err(CodecError::UnknownMessageType)
        );
    }
    // A bare header with an unknown tag: the tag is judged before any field.
    assert_eq!(
        Message::deserialize(&[0, 0, 0, 9, 0, 0, 0, 0, 3]),
        Err(CodecError::UnknownMessageType)
    );
    for tag in 0..=255u8 {
        let got = Message::deserialize(&[0, 0, 0, 9, tag, 0, 0, 0, 0]);
        if (1..=3).contains(&tag) {
            assert_eq!(got, Err(CodecError::TruncatedInput));
        } else {
            assert_eq!(got, Err(CodecError::UnknownMessageType));
        }
    }
}

#[test]
fn record_decoders_refuse_other_kinds() {
    let person = Message::Person(huey()).serialize();
    let employee = Message::Employee(hematologist()).serialize();
    let order = Message::Order(demo_order()).serialize();
    assert_eq!(Person::deserialize(&employee), Err(CodecError::UnknownMessageType));
    assert_eq!(Person::deserialize(&order), Err(CodecError::UnknownMessageType));
    assert_eq!(Employee::deserialize(&person), Err(CodecError::UnknownMessageType));
    assert_eq!(Employee::deserialize(&order), Err(CodecError::UnknownMessageType));
    assert_eq!(Order::deserialize(&person), Err(CodecError::UnknownMessageType));
    assert_eq!(Order::deserialize(&employee), Err(CodecError::UnknownMessageType));
}

#[test]
fn type_tags() {
    assert_eq!(PERSON_TYPE, 1);
    assert_eq!(EMPLOYEE_TYPE, 2);
    assert_eq!(ORDER_TYPE, 3);
    assert_eq!(Message::Person(huey()).msg_type(), 1);
    assert_eq!(Message::Employee(hematologist()).msg_type(), 2);
    assert_eq!(Message::Order(demo_order()).msg_type(), 3);
    assert_eq!(Message::Person(huey()).serialize()[4], 1);
    assert_eq!(Message::Employee(hematologist()).serialize()[4], 2);
    assert_eq!(Message::Order(demo_order()).serialize()[4], 3);
}

#[test]
fn header_size_is_the_message_length() {
    let messages = [
        Message::Person(huey()),
        Message::Person(full_person()),
        Message::Employee(hematologist()),
        Message::Order(demo_order()),
    ];
    for message in messages {
        let bytes = message.serialize();
        let header = Header::decode(&bytes).unwrap();
        assert_eq!(header.msg_size as usize, bytes.len());
        assert_eq!(header.msg_type, message.msg_type());
    }
}

#[test]
fn trailing_bytes_are_ignored() {
    let mut bytes = Message::Person(full_person()).serialize();
    bytes.extend_from_slice(&[0xde, 0xad, 0xbe, 0xef]);
    assert_eq!(Message::deserialize(&bytes), Ok(Message::Person(full_person())));
}

#[test]
fn stated_size_is_not_checked() {
    let mut bytes = Message::Employee(hematologist()).serialize();
    bytes[0] = 0xff;
    bytes[3] = 0;
    assert_eq!(
        Message::deserialize(&bytes),
        Ok(Message::Employee(hematologist()))
    );
}

#[test]
fn wide_characters_do_not_round_trip() {
    let mut person = huey();
    person.name[0] = '\u{148}';
    let bytes = Message::Person(person).serialize();
    let mut expected = huey();
    expected.name[0] = 'H';
    assert_eq!(Message::deserialize(&bytes), Ok(Message::Person(expected)));
    assert_ne!(Message::deserialize(&bytes), Ok(Message::Person(person)));
}

#[test]
fn too_long_name_never_reaches_the_encoder() {
    assert_eq!(
        string_to_char_array::<20>("Huey Lewis and the News"),
        Err(CodecError::TooLong)
    );
    assert_eq!(
        string_to_char_array::<15>("Llanfairpwllgwyngyll"),
        Err(CodecError::TooLong)
    );
}

#[test]
fn nonzero_boolean_byte_decodes_as_true() {
    let mut payload = huey().serialize();
    payload[24] = 0x80;
    let got = Person::deserialize_payload(&payload, 0).unwrap();
    assert!(got.is_student);
}
