use splendor_arena::arena::{ArenaBuilder, ClientId, GameId};
use splendor_arena::mirror::{on_response, on_update_sent, MirrorPhase, MirrorStep};
use splendor_arena::models::{Authenticated, GlobalServerResponse, Initialized};
use splendor_arena::pool::{ArenaPool, RouteError};
use splendor_arena::protocol::Refusal;

#[test]
fn pool_routes_by_game_and_client() {
    let mut pool = ArenaPool::new(5000);
    let (game, seats) = pool.add_arena(ArenaBuilder::new().num_players(2).build());
    let (other, other_seats) = pool.add_arena(ArenaBuilder::new().num_players(3).build());
    assert_eq!(seats.len(), 2);
    assert_eq!(other_seats.len(), 3);
    let first = pool.get_arena(game).unwrap();
    assert_eq!(pool.ids[first], game);
    assert_eq!(pool.route(game, seats[1], &vec![]), Ok(first));
    assert_eq!(pool.route(other, other_seats[2], &vec![]), Ok(pool.get_arena(other).unwrap()));
    assert_eq!(
        pool.route(game, seats[1], &vec![seats[1]]),
        Err(RouteError::Refused(Refusal::AlreadyConnected))
    );
    let unknown = GameId(game.0 ^ other.0 ^ 7);
    if unknown != game && unknown != other {
        assert_eq!(pool.route(unknown, seats[0], &vec![]), Err(RouteError::UnknownGame));
        assert_eq!(pool.get_arena(unknown), None);
    }
    let stranger = ClientId(seats[0].0 ^ seats[1].0 ^ 3);
    if !seats.contains(&stranger) {
        assert_eq!(pool.route(game, stranger, &vec![]), Err(RouteError::Refused(Refusal::NotAllowed)));
    }
}

#[test]
fn mirror_handshake_succeeds_then_streams() {
    let auth = GlobalServerResponse::Authenticated(Authenticated::Success);
    let (phase, step) = on_response(MirrorPhase::AwaitingAuthentication, &auth);
    assert_eq!((phase, step), (MirrorPhase::AwaitingInitialization, MirrorStep::SendInitialGame));
    let note = GlobalServerResponse::Warning("slow".to_string());
    assert_eq!(on_response(phase, &note), (phase, MirrorStep::Log));
    let init = GlobalServerResponse::Initialized(Initialized::Success { id: "g1".to_string(), url: "u".to_string() });
    let (phase, step) = on_response(phase, &init);
    assert_eq!((phase, step), (MirrorPhase::Streaming { sent: 0 }, MirrorStep::AnnounceGame));
    let (phase, num) = on_update_sent(phase).unwrap();
    assert_eq!(num, 1);
    let (phase, num) = on_update_sent(phase).unwrap();
    assert_eq!(num, 2);
    assert_eq!(phase, MirrorPhase::Streaming { sent: 2 });
    assert_eq!(on_update_sent(MirrorPhase::AwaitingInitialization), None);
}

#[test]
fn mirror_handshake_aborts_on_failure() {
    let refused = GlobalServerResponse::Authenticated(Authenticated::Failure { reason: "bad key".to_string() });
    assert_eq!(
        on_response(MirrorPhase::AwaitingAuthentication, &refused),
        (MirrorPhase::Aborted, MirrorStep::Abort)
    );
    let failed = GlobalServerResponse::Initialized(Initialized::Failure { reason: "full".to_string() });
    assert_eq!(
        on_response(MirrorPhase::AwaitingInitialization, &failed),
        (MirrorPhase::Aborted, MirrorStep::Abort)
    );
    let unexpected = GlobalServerResponse::Info("hello".to_string());
    assert_eq!(
        on_response(MirrorPhase::Aborted, &unexpected),
        (MirrorPhase::Aborted, MirrorStep::Ignore)
    );
    let early = GlobalServerResponse::Initialized(Initialized::Success { id: "g".to_string(), url: "u".to_string() });
    assert_eq!(
        on_response(MirrorPhase::AwaitingAuthentication, &early),
        (MirrorPhase::Aborted, MirrorStep::Abort)
    );
}
