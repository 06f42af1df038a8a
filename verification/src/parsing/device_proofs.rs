//! What is proved of the choice of a service: a description that lists a
//! service that maps ports yields one, and the type decides before the place.

use vstd::prelude::*;
use crate::errors::ParseError;
use crate::messages::{WAN_IP_CONNECTION_1, WAN_IP_CONNECTION_2, WAN_PPP_CONNECTION_1};
use crate::parsing::device::{
    child_text, chosen_service, control_urls, document_services, first_offering,
    is_control_urls_of, offers,
};
use crate::xml::Xml;

verus! {

/// The place of a service among those that map ports: 0 for an IP
/// connection of version 1, 1 for one of version 2, 2 for a PPP connection.
/// `None` for a service that is of no such type, or does not say where it is
/// controlled and described.
pub open spec fn preference(service: Xml) -> Option<nat> {
    if offers(service, WAN_IP_CONNECTION_1@) {
        Some(0)
    } else if offers(service, WAN_IP_CONNECTION_2@) {
        Some(1)
    } else if offers(service, WAN_PPP_CONNECTION_1@) {
        Some(2)
    } else {
        None
    }
}

/// The three types of service that map ports are three different texts.
pub proof fn lemma_types_differ()
    ensures
        WAN_IP_CONNECTION_1@ != WAN_IP_CONNECTION_2@,
        WAN_IP_CONNECTION_1@ != WAN_PPP_CONNECTION_1@,
        WAN_IP_CONNECTION_2@ != WAN_PPP_CONNECTION_1@,
{
    reveal_strlit("urn:schemas-upnp-org:service:WANIPConnection:1");
    reveal_strlit("urn:schemas-upnp-org:service:WANIPConnection:2");
    reveal_strlit("urn:schemas-upnp-org:service:WANPPPConnection:1");
    assert(WAN_IP_CONNECTION_1@.len() == 46);
    assert(WAN_IP_CONNECTION_2@.len() == 46);
    assert(WAN_PPP_CONNECTION_1@.len() == 47);
    assert(WAN_IP_CONNECTION_1@[45] == '1');
    assert(WAN_IP_CONNECTION_2@[45] == '2');
}

/// Where `first_offering` finds its service: at the first place of
/// `services` that offers `kind`. The place is `services.len()` where no
/// service offers `kind`, and then nothing is found.
pub proof fn lemma_first_offering_place(services: Seq<Xml>, kind: Seq<char>) -> (place: int)
    ensures
        0 <= place <= services.len(),
        forall|i: int| 0 <= i < place ==> !offers(#[trigger] services[i], kind),
        place < services.len() ==> offers(services[place], kind) && first_offering(services, kind)
            == Some(services[place]),
        place == services.len() ==> first_offering(services, kind) is None,
    decreases services.len(),
{
    if services.len() == 0 {
        0
    } else if offers(services[0], kind) {
        0
    } else {
        let rest = services.drop_first();
        let place = lemma_first_offering_place(rest, kind);
        assert forall|i: int| 0 <= i < place + 1 implies !offers(#[trigger] services[i], kind) by {
            if i > 0 {
                assert(services[i] == rest[i - 1]);
            }
        }
        if place < rest.len() {
            assert(rest[place] == services[place + 1]);
        }
        place + 1
    }
}

/// Where a description lists a service that maps ports, one is chosen: a
/// service of the document whose type is preferred to that of every other,
/// or the same; and among the services of its own type, the first.
pub proof fn lemma_chosen_is_preferred(services: Seq<Xml>, at: int) -> (place: int)
    requires
        0 <= at < services.len(),
        preference(services[at]) is Some,
    ensures
        0 <= place < services.len(),
        chosen_service(services) == Some(services[place]),
        preference(services[place]) is Some,
        preference(services[place])->0 <= preference(services[at])->0,
        preference(services[place]) == preference(services[at]) ==> place <= at,
        forall|i: int|
            0 <= i < place ==> preference(#[trigger] services[i]) != preference(services[place]),
{
    lemma_types_differ();
    let first = lemma_first_offering_place(services, WAN_IP_CONNECTION_1@);
    let second = lemma_first_offering_place(services, WAN_IP_CONNECTION_2@);
    let third = lemma_first_offering_place(services, WAN_PPP_CONNECTION_1@);
    if first < services.len() {
        first
    } else if second < services.len() {
        assert(!offers(services[second], WAN_IP_CONNECTION_1@));
        assert(!offers(services[at], WAN_IP_CONNECTION_1@));
        assert forall|i: int| 0 <= i < second implies preference(#[trigger] services[i])
            != preference(services[second]) by {
            assert(!offers(services[i], WAN_IP_CONNECTION_1@));
            assert(!offers(services[i], WAN_IP_CONNECTION_2@));
        }
        second
    } else {
        assert(!offers(services[at], WAN_IP_CONNECTION_1@));
        assert(!offers(services[at], WAN_IP_CONNECTION_2@));
        assert(third < services.len()) by {
            if third == services.len() {
                assert(!offers(services[at], WAN_PPP_CONNECTION_1@));
            }
        }
        assert(!offers(services[third], WAN_IP_CONNECTION_1@));
        assert(!offers(services[third], WAN_IP_CONNECTION_2@));
        assert forall|i: int| 0 <= i < third implies preference(#[trigger] services[i])
            != preference(services[third]) by {
            assert(!offers(services[i], WAN_IP_CONNECTION_1@));
            assert(!offers(services[i], WAN_IP_CONNECTION_2@));
            assert(!offers(services[i], WAN_PPP_CONNECTION_1@));
        }
        third
    }
}

/// A description yields the paths of a service exactly if it lists a
/// service that maps ports; they are then the paths that the chosen service
/// names. A description that lists none is refused as `ServiceNotFound`.
pub proof fn lemma_control_urls_found(root: Xml)
    ensures
        control_urls(root) is Ok <==> exists|i: int|
            0 <= i < document_services(root).len() && preference(
                #[trigger] document_services(root)[i],
            ) is Some,
        control_urls(root) is Err ==> control_urls(root) == Err::<
            (Seq<char>, Seq<char>),
            ParseError,
        >(ParseError::ServiceNotFound),
        control_urls(root) matches Ok(urls) ==> {
            &&& chosen_service(document_services(root)) matches Some(service)
            &&& preference(service) is Some
            &&& child_text(service, "SCPDURL"@) == Some(urls.0)
            &&& child_text(service, "controlURL"@) == Some(urls.1)
        },
{
    let services = document_services(root);
    let first = lemma_first_offering_place(services, WAN_IP_CONNECTION_1@);
    let second = lemma_first_offering_place(services, WAN_IP_CONNECTION_2@);
    let third = lemma_first_offering_place(services, WAN_PPP_CONNECTION_1@);
    if exists|i: int| 0 <= i < services.len() && preference(#[trigger] services[i]) is Some {
        let at = choose|i: int| 0 <= i < services.len() && preference(#[trigger] services[i]) is Some;
        lemma_chosen_is_preferred(services, at);
    }
    if control_urls(root) is Ok {
        if first < services.len() {
            assert(preference(services[first]) is Some);
        } else if second < services.len() {
            assert(preference(services[second]) is Some);
        } else {
            assert(preference(services[third]) is Some);
        }
    }
}

/// Reading the same bytes again gives the same again: two outcomes of
/// `parse_control_urls` for the same bytes are the same paths, or the same
/// error.
pub proof fn lemma_parse_control_urls_repeats(
    bytes: Seq<u8>,
    first: Result<(String, String), ParseError>,
    second: Result<(String, String), ParseError>,
)
    requires
        is_control_urls_of(bytes, first),
        is_control_urls_of(bytes, second),
    ensures
        match (first, second) {
            (Ok(a), Ok(b)) => a.0@ == b.0@ && a.1@ == b.1@,
            (Err(a), Err(b)) => a == b,
            _ => false,
        },
{
}

} // verus!
