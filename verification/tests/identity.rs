//! The identity directory: refresh, lookup, corrections.

use statusbot::directory::{Directory, DirectoryFetchError};
use statusbot::rc::{Avatar, Desk, EntityType};
use statusbot::Position;

fn desk(id: usize, x: usize, y: usize, owner: Option<&str>) -> Desk {
    Desk {
        id,
        kind: EntityType::Desk,
        pos: Position { x, y },
        color: "light-orange".to_string(),
        emoji: None,
        status: None,
        expires_at: None,
        profile_url: None,
        owner: owner.map(|name| Avatar {
            id: id + 1000,
            name: name.to_string(),
            image_url: String::new(),
        }),
    }
}

#[test]
fn test_lookup_fails_before_first_refresh() {
    let dir = Directory::new();
    assert_eq!(dir.lookup("Jacob Young"), None);
}

#[test]
fn test_refresh_populates_and_lookup_normalizes() {
    let mut dir = Directory::new();
    dir.refresh(&vec![
        desk(7, 10, 20, Some("Jacob Young")),
        desk(8, 11, 21, None),
        desk(9, 12, 22, Some("Ada Lovelace")),
    ]);
    assert_eq!(
        dir.lookup("Jacob Young (he/him) (S2'16)"),
        Some((7, Position { x: 10, y: 20 }))
    );
    assert_eq!(dir.lookup("Ada Lovelace"), Some((9, Position { x: 12, y: 22 })));
    // the ownerless desk contributes nothing
    assert_eq!(dir.lookup("Nobody"), None);
}

#[test]
fn test_refresh_replaces_wholesale() {
    let mut dir = Directory::new();
    dir.refresh(&vec![desk(1, 0, 0, Some("Old Owner"))]);
    assert_eq!(dir.lookup("Old Owner"), Some((1, Position { x: 0, y: 0 })));
    dir.refresh(&vec![desk(2, 3, 4, Some("New Owner"))]);
    assert_eq!(dir.lookup("Old Owner"), None);
    assert_eq!(dir.lookup("New Owner"), Some((2, Position { x: 3, y: 4 })));
}

#[test]
fn test_later_record_for_same_owner_wins() {
    let mut dir = Directory::new();
    dir.refresh(&vec![
        desk(1, 0, 0, Some("Jacob Young")),
        desk(2, 5, 6, Some("Jacob Young")),
    ]);
    assert_eq!(dir.lookup("Jacob Young"), Some((2, Position { x: 5, y: 6 })));
}

#[test]
fn test_failed_refresh_leaves_snapshot_intact() {
    let mut dir = Directory::new();
    dir.refresh(&vec![desk(7, 10, 20, Some("Jacob Young"))]);
    dir.apply_refresh(Err(DirectoryFetchError { message: "connection reset".to_string() }));
    assert_eq!(
        dir.lookup("Jacob Young"),
        Some((7, Position { x: 10, y: 20 })),
        "a failed refresh must leave the prior snapshot queryable"
    );
}

#[test]
fn test_successful_apply_refresh_rebuilds() {
    let mut dir = Directory::new();
    dir.apply_refresh(Ok(vec![desk(3, 1, 2, Some("Someone"))]));
    assert_eq!(dir.lookup("Someone"), Some((3, Position { x: 1, y: 2 })));
}

#[test]
fn test_correction_wins_regardless_of_decoration() {
    let mut dir = Directory::new();
    dir.refresh(&vec![desk(42, 9, 9, Some("jyoung"))]);
    // without a correction the decorated chat name misses
    assert_eq!(dir.lookup("Jacob Young (he/him)"), None);
    dir.set_correction("Jacob Young (he/him)", "jyoung".to_string());
    assert_eq!(
        dir.lookup("Jacob Young (he/him)"),
        Some((42, Position { x: 9, y: 9 }))
    );
    // the same correction keyed by the undecorated name serves that name
    dir.set_correction("Jacob Young", "jyoung".to_string());
    assert_eq!(dir.lookup("Jacob Young"), Some((42, Position { x: 9, y: 9 })));
}

#[test]
fn test_correction_survives_refresh() {
    let mut dir = Directory::new();
    dir.set_correction("Chat Name", "jyoung".to_string());
    dir.refresh(&vec![desk(42, 9, 9, Some("jyoung"))]);
    assert_eq!(dir.lookup("Chat Name"), Some((42, Position { x: 9, y: 9 })));
}

#[test]
fn test_set_correction_replaces_older_one() {
    let mut dir = Directory::new();
    dir.refresh(&vec![desk(1, 0, 0, Some("right")), desk(2, 1, 1, Some("wrong"))]);
    dir.set_correction("Chat Name", "wrong".to_string());
    dir.set_correction("Chat Name", "right".to_string());
    assert_eq!(dir.lookup("Chat Name"), Some((1, Position { x: 0, y: 0 })));
}

#[test]
fn test_clear_correction_reports_previous_value() {
    let mut dir = Directory::new();
    dir.set_correction("Chat Name", "jyoung".to_string());
    assert_eq!(dir.clear_correction("Chat Name"), Some("jyoung".to_string()));
    assert_eq!(dir.clear_correction("Chat Name"), None);
}

#[test]
fn test_clear_correction_restores_plain_lookup() {
    let mut dir = Directory::new();
    dir.refresh(&vec![desk(1, 0, 0, Some("Jacob Young"))]);
    dir.set_correction("Jacob Young", "someone else".to_string());
    assert_eq!(dir.lookup("Jacob Young"), None);
    dir.clear_correction("Jacob Young");
    assert_eq!(dir.lookup("Jacob Young"), Some((1, Position { x: 0, y: 0 })));
}

#[test]
fn test_correction_of_passes_name_through() {
    let mut dir = Directory::new();
    assert_eq!(dir.correction_of("Jacob Young"), "Jacob Young");
    dir.set_correction("Jacob Young", "jyoung".to_string());
    assert_eq!(dir.correction_of("Jacob Young"), "jyoung");
}
