use vstd::prelude::*;
use vstd::string::{StringExecFns, StringSliceAdditionalSpecFns};
use vstd::utf8::encode_utf8;

use base64::engine::general_purpose;
use base64::Engine;

use crate::card::{Card, CardData};
use crate::deck::{cards_decoded, deck_decoded, deck_error, deck_text, decode_deck, first_card_error, Deck, DeckData};
use crate::error::DecodeError;
use crate::search::{listing_text, shown, CardSearchResponse};

verus! {

/// The standard base64 alphabet encoding of `bytes`, without padding.
pub uninterp spec fn base64_no_pad(bytes: Seq<u8>) -> Seq<char>;

/// Relies on base64's `STANDARD_NO_PAD.encode`: the standard-alphabet encoding of the
/// string's UTF-8 bytes, without padding, four characters for every three bytes,
/// rounded up. It panics when that length overflows `usize`, which the bound rules out.
#[verifier::external_body]
fn encode_no_pad(s: &str) -> (r: String)
    requires
        encode_utf8(s@).len() <= usize::MAX / 2,
    ensures
        r@ == base64_no_pad(encode_utf8(s@)),
        r@.len() == (4 * encode_utf8(s@).len() + 2) / 3,
{
    general_purpose::STANDARD_NO_PAD.encode(s.as_bytes())
}

/// What the catalog command was asked to do: search by card text, show a deck, or
/// show the access token.
#[derive(Debug)]
pub struct MimironArgs {
    pub card_name: Option<Vec<String>>,
    pub deck: Option<String>,
    pub token: bool,
}

/// The token endpoint's reply.
#[derive(Debug)]
pub struct Authorization {
    pub access_token: String,
    pub expires_in: i64,
    pub token_type: String,
}

#[derive(Debug, Clone, Copy, PartialEq, Eq, Structural)]
pub enum SessionError {
    /// A record of the catalog's reply did not decode.
    Decode(DecodeError),
    /// The client credentials are too long to encode.
    CredentialsTooLong,
    /// The event does not belong to the state the session is in.
    UnexpectedEvent,
}

/// Where a catalog session stands.
#[derive(Debug)]
pub enum Session {
    /// Waiting for the client credentials.
    Start(MimironArgs),
    /// Waiting for the access token.
    AwaitingToken(MimironArgs),
    /// Waiting for the reply of a card search.
    AwaitingCards,
    /// Waiting for the reply of a deck lookup.
    AwaitingDeck,
    Finished,
}

/// What arrived from outside.
#[derive(Debug)]
pub enum Event {
    Credentials { client_id: String, client_secret: String },
    Token(Authorization),
    Cards(Vec<CardData>),
    Deck(DeckData),
}

/// What is to be done next.
#[derive(Debug)]
pub enum Action {
    /// Ask the token endpoint for an access token, authorizing with these encoded
    /// client credentials.
    RequestToken { credentials: String },
    /// Search the catalog for cards whose text matches the filter.
    SearchCards { text_filter: String, access_token: String },
    /// Look up the deck with this code.
    FetchDeck { code: String, access_token: String },
    /// Show the text; the session is over.
    Print { text: String },
    /// Report the error; the session is over.
    Fail { error: SessionError },
    /// Nothing was asked; the session is over.
    Done,
}

/// The words joined by single spaces.
pub open spec fn join_words(ws: Seq<String>) -> Seq<char>
    decreases ws.len(),
{
    if ws.len() == 0 {
        Seq::empty()
    } else if ws.len() == 1 {
        ws[0]@
    } else {
        join_words(ws.drop_last()) + seq![' '] + ws.last()@
    }
}

/// The `id:secret` pair, as UTF-8 bytes.
pub open spec fn credential_bytes(client_id: String, client_secret: String) -> Seq<u8> {
    encode_utf8(client_id@ + seq![':'] + client_secret@)
}

/// The step taken once the access token is known.
pub open spec fn after_token(args: MimironArgs, auth: Authorization, next: Session, action: Action) -> bool {
    if args.token {
        next is Finished && (action matches Action::Print { text } && text@ == auth.access_token@)
    } else {
        match args.card_name {
            Some(words) => next is AwaitingCards && (action matches Action::SearchCards {
                text_filter,
                access_token,
            } && text_filter@ == join_words(words@) && access_token@ == auth.access_token@),
            None => match args.deck {
                Some(code) => next is AwaitingDeck && (action matches Action::FetchDeck {
                    code: c,
                    access_token,
                } && c@ == code@ && access_token@ == auth.access_token@),
                None => next is Finished && action is Done,
            },
        }
    }
}

/// The step taken on a card search reply.
pub open spec fn after_cards(records: Seq<CardData>, next: Session, action: Action) -> bool {
    &&& next is Finished
    &&& match first_card_error(records) {
        Some(e) => action == Action::Fail { error: SessionError::Decode(e) },
        None => action matches Action::Print { text } && exists|cs: Seq<Card>|
            cards_decoded(records, cs) && text@ == listing_text(shown(cs)),
    }
}

/// The step taken on a deck reply.
pub open spec fn after_deck(d: DeckData, next: Session, action: Action) -> bool {
    &&& next is Finished
    &&& match deck_error(d) {
        Some(e) => action == Action::Fail { error: SessionError::Decode(e) },
        None => action matches Action::Print { text } && exists|k: Deck|
            deck_decoded(d, k) && text@ == deck_text(k),
    }
}

fn join_with_spaces(words: &Vec<String>) -> (r: String)
    ensures
        r@ == join_words(words@),
{
    let mut s = String::new();
    let mut i: usize = 0;
    while i < words.len()
        invariant
            i <= words.len(),
            s@ == join_words(words@.take(i as int)),
        decreases words.len() - i,
    {
        proof {
            reveal_strlit(" ");
            assert(words@.take(i + 1).drop_last() =~= words@.take(i as int));
        }
        if i > 0 {
            s.append(" ");
        }
        s.append(words[i].as_str());
        proof {
            if i == 0 {
                assert(words@.take(1).len() == 1);
            }
        }
        assert(s@ =~= join_words(words@.take(i + 1)));
        i += 1;
    }
    assert(words@.take(words.len() as int) =~= words@);
    s
}

/// One step of a catalog session: from the state and what arrived, the next state and
/// what to do. Credentials are encoded for the token request; the token decides between
/// showing it, a card search and a deck lookup; a reply is decoded and rendered.
pub fn run(state: Session, event: Event) -> (r: (Session, Action))
    ensures
        match (state, event) {
            (Session::Start(args), Event::Credentials { client_id, client_secret }) => {
                let plain = credential_bytes(client_id, client_secret);
                if plain.len() <= usize::MAX / 2 {
                    r.0 == Session::AwaitingToken(args) && (r.1 matches Action::RequestToken {
                        credentials,
                    } && credentials@ == base64_no_pad(plain))
                } else {
                    r.0 is Finished && r.1 == Action::Fail { error: SessionError::CredentialsTooLong }
                }
            },
            (Session::AwaitingToken(args), Event::Token(auth)) => after_token(args, auth, r.0, r.1),
            (Session::AwaitingCards, Event::Cards(records)) => after_cards(records@, r.0, r.1),
            (Session::AwaitingDeck, Event::Deck(d)) => after_deck(d, r.0, r.1),
            _ => r.0 is Finished && r.1 == Action::Fail { error: SessionError::UnexpectedEvent },
        },
{
    match (state, event) {
        (Session::Start(args), Event::Credentials { client_id, client_secret }) => {
            let mut plain = client_id.clone();
            plain.append(":");
            plain.append(client_secret.as_str());
            proof {
                reveal_strlit(":");
                assert(plain@ =~= client_id@ + seq![':'] + client_secret@);
            }
            let plain_str = plain.as_str();
            assert(plain_str.spec_bytes() == encode_utf8(plain@));
            if plain_str.as_bytes().len() <= usize::MAX / 2 {
                let credentials = encode_no_pad(plain_str);
                (Session::AwaitingToken(args), Action::RequestToken { credentials })
            } else {
                (Session::Finished, Action::Fail { error: SessionError::CredentialsTooLong })
            }
        },
        (Session::AwaitingToken(args), Event::Token(auth)) => {
            if args.token {
                (Session::Finished, Action::Print { text: auth.access_token })
            } else if let Some(words) = &args.card_name {
                let text_filter = join_with_spaces(words);
                (Session::AwaitingCards, Action::SearchCards { text_filter, access_token: auth.access_token })
            } else if let Some(code) = args.deck {
                (Session::AwaitingDeck, Action::FetchDeck { code, access_token: auth.access_token })
            } else {
                (Session::Finished, Action::Done)
            }
        },
        (Session::AwaitingCards, Event::Cards(records)) => match CardSearchResponse::decode(&records) {
            Ok(resp) => {
                let text = resp.listing();
                assert(cards_decoded(records@, resp.cards@) && text@ == listing_text(shown(resp.cards@)));
                (Session::Finished, Action::Print { text })
            },
            Err(e) => (Session::Finished, Action::Fail { error: SessionError::Decode(e) }),
        },
        (Session::AwaitingDeck, Event::Deck(d)) => match decode_deck(&d) {
            Ok(deck) => {
                let text = deck.render();
                assert(deck_decoded(d, deck) && text@ == deck_text(deck));
                (Session::Finished, Action::Print { text })
            },
            Err(e) => (Session::Finished, Action::Fail { error: SessionError::Decode(e) }),
        },
        _ => (Session::Finished, Action::Fail { error: SessionError::UnexpectedEvent }),
    }
}

} // verus!
