use asyncfs::tui::{Container, Element, Heading, Text};

fn sample() -> Container {
    let text = Heading { inner_text: Text { text: String::from("Hello world") } };
    let text2 = Text { text: String::from("This is a long string of text") };
    let children = vec![Element::Heading(text), Element::Text(text2)];
    Container { children }
}

#[test]
fn container_test() {
    let container = sample();
    let drawing = String::from_utf8(container.render()).unwrap();
    let expected = "+-----------------------------+\n\
                    |Hello world                  |\n\
                    |This is a long string of text|\n\
                    +-----------------------------+\n";
    assert_eq!(drawing, expected);
}

#[test]
fn container_dimensions() {
    let d = sample().dimensions();
    assert_eq!(d.width, 31);
    assert_eq!(d.height, 2);
}

#[test]
fn empty_container() {
    let c = Container { children: vec![] };
    let d = c.dimensions();
    assert_eq!((d.width, d.height), (2, 0));
    assert_eq!(c.render(), b"++\n++\n".to_vec());
}

#[test]
fn element_dimensions_count_bytes() {
    let t = Text { text: String::from("abc") };
    assert_eq!(t.dimensions().width, 3);
    assert_eq!(t.dimensions().height, 1);
    let h = Element::Heading(Heading { inner_text: Text { text: String::from("") } });
    assert_eq!(h.dimensions().width, 0);
}
