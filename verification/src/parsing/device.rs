//! The description of a device: a document that lists the device's
//! services, and the devices inside it with theirs. One of the services maps
//! ports; the document says where it is controlled and where it is described.

use vstd::prelude::*;
use crate::errors::ParseError;
use crate::messages::{WAN_IP_CONNECTION_1, WAN_IP_CONNECTION_2, WAN_PPP_CONNECTION_1};
use crate::text::text_eq;
use crate::xml::{document, lemma_views_of, parse_document, views_of, Xml, XmlElement};

verus! {

/// The first of `elements` that has the name `name`.
pub open spec fn first_named(elements: Seq<Xml>, name: Seq<char>) -> Option<Xml>
    decreases elements.len(),
{
    if elements.len() == 0 {
        None
    } else if elements[0].name == name {
        Some(elements[0])
    } else {
        first_named(elements.drop_first(), name)
    }
}

/// The text of the first element inside `element` that has the name `name`.
pub open spec fn child_text(element: Xml, name: Seq<char>) -> Option<Seq<char>> {
    match first_named(element.children, name) {
        Some(child) => child.text,
        None => None,
    }
}

/// Those of `elements` that have the name `name`, in their order.
pub open spec fn elements_named(elements: Seq<Xml>, name: Seq<char>) -> Seq<Xml>
    decreases elements.len(),
{
    if elements.len() == 0 {
        Seq::empty()
    } else {
        let before = elements_named(elements.drop_last(), name);
        if elements.last().name == name {
            before.push(elements.last())
        } else {
            before
        }
    }
}

/// The services that a device lists itself, where `children` are the
/// elements inside the device: the `service` elements of its `serviceList`.
pub open spec fn listed_services(children: Seq<Xml>) -> Seq<Xml>
    decreases children.len(),
{
    if children.len() == 0 {
        Seq::empty()
    } else {
        let before = listed_services(children.drop_last());
        if children.last().name == "serviceList"@ {
            before + elements_named(children.last().children, "service"@)
        } else {
            before
        }
    }
}

/// The services of a device: those that it lists itself, then those of the
/// devices inside it.
pub open spec fn device_services(device: Xml) -> Seq<Xml>
    decreases device, 2nat,
{
    listed_services(device.children) + nested_services(device.children)
}

/// The services of the devices inside a device, where `children` are the
/// elements inside the device: those of the devices in its `deviceList`.
pub open spec fn nested_services(children: Seq<Xml>) -> Seq<Xml>
    decreases children, 1nat,
{
    if children.len() == 0 {
        Seq::empty()
    } else {
        let before = nested_services(children.drop_last());
        if children.last().name == "deviceList"@ {
            before + devices_services(children.last().children)
        } else {
            before
        }
    }
}

/// The services of the `device` elements among `elements`, in their order.
pub open spec fn devices_services(elements: Seq<Xml>) -> Seq<Xml>
    decreases elements, 0nat,
{
    if elements.len() == 0 {
        Seq::empty()
    } else {
        let before = devices_services(elements.drop_last());
        if elements.last().name == "device"@ {
            before + device_services(elements.last())
        } else {
            before
        }
    }
}

/// The services that a description lists, in the order of the document:
/// those of the devices directly inside its root.
pub open spec fn document_services(root: Xml) -> Seq<Xml> {
    devices_services(root.children)
}

/// Whether `service` is of the type `kind` and says where it is controlled
/// and where it is described.
pub open spec fn offers(service: Xml, kind: Seq<char>) -> bool {
    &&& child_text(service, "serviceType"@) == Some(kind)
    &&& child_text(service, "controlURL"@) is Some
    &&& child_text(service, "SCPDURL"@) is Some
}

/// The first of `services` that offers the type `kind`.
pub open spec fn first_offering(services: Seq<Xml>, kind: Seq<char>) -> Option<Xml>
    decreases services.len(),
{
    if services.len() == 0 {
        None
    } else if offers(services[0], kind) {
        Some(services[0])
    } else {
        first_offering(services.drop_first(), kind)
    }
}

/// The service that is chosen among `services`: the first that offers an IP
/// connection of version 1; where there is none, the first that offers one of
/// version 2; where there is none either, the first that offers a PPP
/// connection.
pub open spec fn chosen_service(services: Seq<Xml>) -> Option<Xml> {
    match first_offering(services, WAN_IP_CONNECTION_1@) {
        Some(service) => Some(service),
        None => match first_offering(services, WAN_IP_CONNECTION_2@) {
            Some(service) => Some(service),
            None => first_offering(services, WAN_PPP_CONNECTION_1@),
        },
    }
}

/// What a description says of the service that maps ports: the path of the
/// service's own description, and the path at which it is controlled.
pub open spec fn control_urls(root: Xml) -> Result<(Seq<char>, Seq<char>), ParseError> {
    match chosen_service(document_services(root)) {
        Some(service) => Ok(
            (child_text(service, "SCPDURL"@)->0, child_text(service, "controlURL"@)->0),
        ),
        None => Err(ParseError::ServiceNotFound),
    }
}

/// What the bytes of a description say of the service that maps ports.
pub open spec fn parsed_control_urls(bytes: Seq<u8>) -> Result<(Seq<char>, Seq<char>), ParseError> {
    match document(bytes) {
        Some(root) => control_urls(root),
        None => Err(ParseError::MalformedXml),
    }
}

/// The service that `first_offering` finds is one of `services` and offers `kind`.
pub proof fn lemma_first_offering(services: Seq<Xml>, kind: Seq<char>)
    ensures
        first_offering(services, kind) matches Some(service) ==> offers(service, kind)
            && services.contains(service),
    decreases services.len(),
{
    if services.len() > 0 && !offers(services[0], kind) {
        let rest = services.drop_first();
        lemma_first_offering(rest, kind);
        if let Some(service) = first_offering(rest, kind) {
            let i = choose|i: int| 0 <= i < rest.len() && rest[i] == service;
            assert(services[i + 1] == service);
        }
    } else if services.len() > 0 {
        assert(services[0] == services[0]);
    }
}

/// The views of the elements that `elements` refer to.
pub open spec fn views_of_refs(elements: Seq<&XmlElement>) -> Seq<Xml> {
    Seq::new(elements.len(), |i: int| elements[i]@)
}

/// The first element inside `element` that has the name `name`.
pub fn find_child<'a>(element: &'a XmlElement, name: &str) -> (child: Option<&'a XmlElement>)
    ensures
        match child {
            Some(found) => first_named(element@.children, name@) == Some(found@),
            None => first_named(element@.children, name@) is None,
        },
{
    let ghost all = views_of(element.children@);
    proof {
        lemma_views_of(element.children@);
    }
    let mut index: usize = 0;
    assert(all.skip(0) =~= all);
    while index < element.children.len()
        invariant
            index <= element.children@.len(),
            all == views_of(element.children@),
            all == element@.children,
            all.len() == element.children@.len(),
            forall|i: int| 0 <= i < all.len() ==> #[trigger] all[i] == element.children@[i]@,
            first_named(all, name@) == first_named(all.skip(index as int), name@),
        decreases element.children@.len() - index,
    {
        let child = &element.children[index];
        assert(all.skip(index as int)[0] == all[index as int]);
        assert(all.skip(index as int).drop_first() == all.skip(index + 1));
        if text_eq(child.name.as_str(), name) {
            return Some(child);
        }
        index = index + 1;
    }
    None
}

/// The text of the first element inside `element` that has the name `name`.
pub fn find_child_text<'a>(element: &'a XmlElement, name: &str) -> (text: Option<&'a String>)
    ensures
        match text {
            Some(found) => child_text(element@, name@) == Some(found@),
            None => child_text(element@, name@) is None,
        },
{
    match find_child(element, name) {
        Some(child) => match &child.text {
            Some(text) => Some(text),
            None => None,
        },
        None => None,
    }
}

fn collect_named<'a>(elements: &'a Vec<XmlElement>, name: &str, out: &mut Vec<&'a XmlElement>)
    ensures
        views_of_refs(final(out)@) == views_of_refs(old(out)@) + elements_named(
            views_of(elements@),
            name@,
        ),
{
    let ghost all = views_of(elements@);
    proof {
        lemma_views_of(elements@);
    }
    let mut index: usize = 0;
    assert(all.take(0) =~= Seq::<Xml>::empty());
    assert(views_of_refs(out@) =~= views_of_refs(old(out)@) + Seq::<Xml>::empty());
    while index < elements.len()
        invariant
            index <= elements@.len(),
            all == views_of(elements@),
            all.len() == elements@.len(),
            forall|i: int| 0 <= i < all.len() ==> #[trigger] all[i] == elements@[i]@,
            views_of_refs(out@) == views_of_refs(old(out)@) + elements_named(
                all.take(index as int),
                name@,
            ),
        decreases elements@.len() - index,
    {
        let element = &elements[index];
        assert(all.take(index + 1).drop_last() == all.take(index as int));
        if text_eq(element.name.as_str(), name) {
            let ghost before = out@;
            out.push(element);
            assert(views_of_refs(out@) =~= views_of_refs(before).push(element@));
        }
        index = index + 1;
    }
    assert(all.take(index as int) == all);
}

fn collect_listed<'a>(children: &'a Vec<XmlElement>, out: &mut Vec<&'a XmlElement>)
    ensures
        views_of_refs(final(out)@) == views_of_refs(old(out)@) + listed_services(
            views_of(children@),
        ),
{
    let ghost all = views_of(children@);
    proof {
        lemma_views_of(children@);
    }
    let mut index: usize = 0;
    assert(all.take(0) =~= Seq::<Xml>::empty());
    assert(views_of_refs(out@) =~= views_of_refs(old(out)@) + Seq::<Xml>::empty());
    while index < children.len()
        invariant
            index <= children@.len(),
            all == views_of(children@),
            all.len() == children@.len(),
            forall|i: int| 0 <= i < all.len() ==> #[trigger] all[i] == children@[i]@,
            views_of_refs(out@) == views_of_refs(old(out)@) + listed_services(
                all.take(index as int),
            ),
        decreases children@.len() - index,
    {
        let child = &children[index];
        assert(all.take(index + 1).drop_last() == all.take(index as int));
        if text_eq(child.name.as_str(), "serviceList") {
            collect_named(&child.children, "service", out);
            assert(views_of_refs(out@) =~= views_of_refs(old(out)@) + (listed_services(
                all.take(index as int),
            ) + elements_named(child@.children, "service"@)));
        }
        index = index + 1;
    }
    assert(all.take(index as int) == all);
}

fn collect_device<'a>(device: &'a XmlElement, out: &mut Vec<&'a XmlElement>)
    ensures
        views_of_refs(final(out)@) == views_of_refs(old(out)@) + device_services(device@),
    decreases device, 2nat,
{
    collect_listed(&device.children, out);
    collect_nested(&device.children, out);
    assert(views_of_refs(out@) =~= views_of_refs(old(out)@) + (listed_services(device@.children)
        + nested_services(device@.children)));
}

fn collect_nested<'a>(children: &'a Vec<XmlElement>, out: &mut Vec<&'a XmlElement>)
    ensures
        views_of_refs(final(out)@) == views_of_refs(old(out)@) + nested_services(
            views_of(children@),
        ),
    decreases children, 1nat,
{
    let ghost all = views_of(children@);
    proof {
        lemma_views_of(children@);
    }
    let mut index: usize = 0;
    assert(all.take(0) =~= Seq::<Xml>::empty());
    assert(views_of_refs(out@) =~= views_of_refs(old(out)@) + Seq::<Xml>::empty());
    while index < children.len()
        invariant
            index <= children@.len(),
            all == views_of(children@),
            all.len() == children@.len(),
            forall|i: int| 0 <= i < all.len() ==> #[trigger] all[i] == children@[i]@,
            views_of_refs(out@) == views_of_refs(old(out)@) + nested_services(
                all.take(index as int),
            ),
        decreases children@.len() - index,
    {
        let child = &children[index];
        assert(all.take(index + 1).drop_last() == all.take(index as int));
        if text_eq(child.name.as_str(), "deviceList") {
            proof {
                assert(decreases_to!(children => children@));
                assert(decreases_to!(children@ => children@[index as int]));
                assert(decreases_to!(children@[index as int] => children@[index as int].children));
            }
            collect_devices(&child.children, out);
            assert(views_of_refs(out@) =~= views_of_refs(old(out)@) + (nested_services(
                all.take(index as int),
            ) + devices_services(child@.children)));
        }
        index = index + 1;
    }
    assert(all.take(index as int) == all);
}

fn collect_devices<'a>(elements: &'a Vec<XmlElement>, out: &mut Vec<&'a XmlElement>)
    ensures
        views_of_refs(final(out)@) == views_of_refs(old(out)@) + devices_services(
            views_of(elements@),
        ),
    decreases elements, 0nat,
{
    let ghost all = views_of(elements@);
    proof {
        lemma_views_of(elements@);
    }
    let mut index: usize = 0;
    assert(all.take(0) =~= Seq::<Xml>::empty());
    assert(views_of_refs(out@) =~= views_of_refs(old(out)@) + Seq::<Xml>::empty());
    while index < elements.len()
        invariant
            index <= elements@.len(),
            all == views_of(elements@),
            all.len() == elements@.len(),
            forall|i: int| 0 <= i < all.len() ==> #[trigger] all[i] == elements@[i]@,
            views_of_refs(out@) == views_of_refs(old(out)@) + devices_services(
                all.take(index as int),
            ),
        decreases elements@.len() - index,
    {
        let element = &elements[index];
        assert(all.take(index + 1).drop_last() == all.take(index as int));
        if text_eq(element.name.as_str(), "device") {
            proof {
                assert(decreases_to!(elements => elements@));
                assert(decreases_to!(elements@ => elements@[index as int]));
            }
            collect_device(element, out);
            assert(views_of_refs(out@) =~= views_of_refs(old(out)@) + (devices_services(
                all.take(index as int),
            ) + device_services(element@)));
        }
        index = index + 1;
    }
    assert(all.take(index as int) == all);
}

/// Whether `service` is of the type `kind` and says where it is controlled
/// and where it is described.
fn service_offers(service: &XmlElement, kind: &str) -> (yes: bool)
    ensures
        yes == offers(service@, kind@),
{
    match find_child_text(service, "serviceType") {
        Some(found) => text_eq(found.as_str(), kind) && find_child_text(service, "controlURL").is_some()
            && find_child_text(service, "SCPDURL").is_some(),
        None => false,
    }
}

fn find_offering<'a>(services: &Vec<&'a XmlElement>, kind: &str) -> (service: Option<&'a XmlElement>)
    ensures
        match service {
            Some(found) => first_offering(views_of_refs(services@), kind@) == Some(found@),
            None => first_offering(views_of_refs(services@), kind@) is None,
        },
{
    let ghost all = views_of_refs(services@);
    let mut index: usize = 0;
    assert(all.skip(0) =~= all);
    while index < services.len()
        invariant
            index <= services@.len(),
            all == views_of_refs(services@),
            first_offering(all, kind@) == first_offering(all.skip(index as int), kind@),
        decreases services@.len() - index,
    {
        let service: &'a XmlElement = services[index];
        assert(all.skip(index as int)[0] == all[index as int]);
        assert(all.skip(index as int).drop_first() == all.skip(index + 1));
        if service_offers(service, kind) {
            return Some(service);
        }
        index = index + 1;
    }
    None
}

/// Finds in a description the service that maps ports, and returns the path
/// of the service's own description and the path at which it is controlled,
/// in this order.
///
/// The services are taken in the order of the document, those of a device
/// before those of the devices inside it. A service counts if its type is one
/// of the three that map ports and it names both paths. Of those that count,
/// the type decides first, the place in the document second.
pub fn find_control_urls(root: &XmlElement) -> (urls: Result<(String, String), ParseError>)
    ensures
        match urls {
            Ok((schema_path, control_path)) => control_urls(root@) == Ok::<
                (Seq<char>, Seq<char>),
                ParseError,
            >((schema_path@, control_path@)),
            Err(error) => control_urls(root@) == Err::<(Seq<char>, Seq<char>), ParseError>(error),
        },
{
    let mut services: Vec<&XmlElement> = Vec::new();
    assert(views_of_refs(services@) =~= Seq::<Xml>::empty());
    collect_devices(&root.children, &mut services);
    assert(views_of_refs(services@) =~= document_services(root@));
    let chosen = match find_offering(&services, WAN_IP_CONNECTION_1) {
        Some(service) => Some(service),
        None => match find_offering(&services, WAN_IP_CONNECTION_2) {
            Some(service) => Some(service),
            None => find_offering(&services, WAN_PPP_CONNECTION_1),
        },
    };
    proof {
        lemma_first_offering(views_of_refs(services@), WAN_IP_CONNECTION_1@);
        lemma_first_offering(views_of_refs(services@), WAN_IP_CONNECTION_2@);
        lemma_first_offering(views_of_refs(services@), WAN_PPP_CONNECTION_1@);
    }
    match chosen {
        Some(service) => {
            match (find_child_text(service, "SCPDURL"), find_child_text(service, "controlURL")) {
                (Some(schema_path), Some(control_path)) => Ok(
                    (schema_path.clone(), control_path.clone()),
                ),
                _ => Err(ParseError::ServiceNotFound),
            }
        },
        None => Err(ParseError::ServiceNotFound),
    }
}

/// Whether `outcome` is what the bytes of a description are read as: the
/// two paths of the service that maps ports, or the reason for which none is
/// found.
pub open spec fn is_control_urls_of(bytes: Seq<u8>, outcome: Result<(String, String), ParseError>)
    -> bool {
    match outcome {
        Ok((schema_path, control_path)) => parsed_control_urls(bytes) == Ok::<
            (Seq<char>, Seq<char>),
            ParseError,
        >((schema_path@, control_path@)),
        Err(error) => parsed_control_urls(bytes) == Err::<(Seq<char>, Seq<char>), ParseError>(error),
    }
}

/// Reads the description of a device: the path of the description of the
/// service that maps ports, and the path at which that service is controlled,
/// in this order. `MalformedXml` where the bytes are no document,
/// `ServiceNotFound` where the document lists no such service.
pub fn parse_control_urls(bytes: &[u8]) -> (urls: Result<(String, String), ParseError>)
    ensures
        is_control_urls_of(bytes@, urls),
{
    match parse_document(bytes) {
        Some(root) => find_control_urls(&root),
        None => Err(ParseError::MalformedXml),
    }
}

} // verus!
