//! The administrative surface and the subscriber commands: enabling and
//! disabling the operational flag, broadcasting past the filters, signing
//! recipients up and out, and setting their category filters.
use vstd::prelude::*;
use vstd::string::*;
use crate::category::{categories, match_category, spec_categories, spec_match_category};
use crate::pipeline::{Send, SendView};
use crate::store::{
    get_subscribers, delete_subscriber, select, set_config, set_subscriber, spec_config_get,
    spec_subs_get, Config, Connection, Database, same_but_config, same_but_subscribers,
};
use crate::text::{
    contains_str, join_strings, lower_of, lowercase, replace_all, split_on_char, spec_contains,
    spec_join, spec_replace, spec_split, spec_trim, str_eq, trim_str,
};

verus! {

/// The commands a recipient or the operator can issue.
pub enum Command {
    Help,
    Start,
    Stop,
    Categories,
    AvailableCategories,
    AdminStopBot,
    AdminStartBot,
    AdminBroadcast,
}

/// Whether the sender is the configured operator; with no operator
/// configured, nobody is.
pub open spec fn spec_is_admin(admin_chat_id: Option<Seq<char>>, chat_id: Seq<char>) -> bool {
    match admin_chat_id {
        None => false,
        Some(a) => a == chat_id,
    }
}

/// Compares the sender against the configured operator.
pub fn is_admin(admin_chat_id: Option<&str>, chat_id: &str) -> (r: bool)
    ensures
        r == spec_is_admin(
            match admin_chat_id {
                None => None,
                Some(a) => Some(a@),
            },
            chat_id@,
        ),
{
    match admin_chat_id {
        None => false,
        Some(a) => str_eq(a, chat_id),
    }
}

/// A broadcast message as it goes out: the command word removed and the
/// remainder trimmed.
pub open spec fn spec_broadcast_text(t: Seq<char>) -> Seq<char> {
    spec_trim(spec_replace(t, "/admin_broadcast"@, Seq::<char>::empty()))
}

/// Strips the broadcast command word and trims the remainder.
pub fn broadcast_text(t: &str) -> (r: String)
    ensures
        r@ == spec_broadcast_text(t@),
{
    proof {
        reveal_strlit("/admin_broadcast");
        reveal_strlit("");
        assert(""@ =~= Seq::<char>::empty());
    }
    let cleaned = replace_all(t, "/admin_broadcast", "");
    trim_str(cleaned.as_str())
}

/// The category names that survive parsing a filter request: each
/// comma-separated piece is trimmed, empty pieces are dropped, and the rest
/// must fuzzy-match a canonical category, which is taken in lowercase.
pub open spec fn spec_passed_from(pieces: Seq<Seq<char>>) -> Seq<Seq<char>>
    decreases pieces.len(),
{
    if pieces.len() == 0 {
        Seq::<Seq<char>>::empty()
    } else {
        let t = spec_trim(pieces[0]);
        let rest = spec_passed_from(pieces.skip(1));
        if t.len() > 0 && spec_match_category(t) is Some {
            seq![spec_match_category(t)->Some_0] + rest
        } else {
            rest
        }
    }
}

pub open spec fn spec_passed_categories(text: Seq<char>) -> Seq<Seq<char>> {
    spec_passed_from(
        spec_split(spec_replace(text, "/categories"@, Seq::<char>::empty()), ','),
    )
}

/// Parses a filter request into the matched canonical categories.
pub fn passed_categories(text: &str) -> (r: Vec<String>)
    ensures
        r@.map_values(|p: String| p@) == spec_passed_categories(text@),
{
    proof {
        reveal_strlit("/categories");
        reveal_strlit("");
        assert(""@ =~= Seq::<char>::empty());
    }
    let cleaned = replace_all(text, "/categories", "");
    let pieces = split_on_char(cleaned.as_str(), ',');
    let ghost views = pieces@.map_values(|p: String| p@);
    let n = pieces.len();
    let mut out: Vec<String> = Vec::new();
    let mut i: usize = 0;
    proof {
        assert(views.skip(0) =~= views);
        assert(out@.map_values(|p: String| p@) + spec_passed_from(views) =~= spec_passed_from(
            views,
        ));
    }
    while i < n
        invariant
            0 <= i <= n,
            n == pieces@.len(),
            views == pieces@.map_values(|p: String| p@),
            spec_passed_from(views) == out@.map_values(|p: String| p@) + spec_passed_from(
                views.skip(i as int),
            ),
        decreases n - i,
    {
        let ghost pre = out@.map_values(|p: String| p@);
        proof {
            let rest = views.skip(i as int);
            assert(rest[0] == views[i as int]);
            assert(rest.skip(1) =~= views.skip(i + 1));
        }
        let trimmed = trim_str(pieces[i].as_str());
        if trimmed.unicode_len() > 0 {
            match match_category(trimmed.as_str()) {
                Some(c) => {
                    proof {
                        assert(c@ == spec_match_category(spec_trim(views[i as int]))->Some_0);
                    }
                    out.push(c);
                    proof {
                        assert(out@.map_values(|p: String| p@) =~= pre + seq![
                            spec_match_category(spec_trim(views[i as int]))->Some_0,
                        ]);
                        assert(pre + (seq![
                            spec_match_category(spec_trim(views[i as int]))->Some_0,
                        ] + spec_passed_from(views.skip(i + 1))) =~= out@.map_values(
                            |p: String| p@,
                        ) + spec_passed_from(views.skip(i + 1)));
                    }
                },
                None => {},
            }
        }
        i = i + 1;
    }
    proof {
        assert(views.skip(n as int) =~= Seq::<Seq<char>>::empty());
        assert(out@.map_values(|p: String| p@) + Seq::<Seq<char>>::empty() =~= out@.map_values(
            |p: String| p@,
        ));
    }
    out
}

/// The help lines, one per command, preceded by the header line.
pub open spec fn spec_help_lines() -> Seq<Seq<char>> {
    seq![
        "These commands are supported:"@,
        "/help - List these options with information"@,
        "/start - Signup for Pepperbot to receive messages when a new deal is listed"@,
        "/stop - Cancel subscription for Pepperbot"@,
        "/categories - Signup for one of the Pepper categories. Only accepts comma-separated categories"@,
        "/available_categories - List available Pepper categories"@,
        "/stop_bot - Admin - Stop bot from sending messages"@,
        "/start_bot - Admin - Allow bot to send messages again"@,
        "/broadcast - Admin - Broadcast to all subscribed users"@,
    ]
}

fn help_lines() -> (v: Vec<&'static str>)
    ensures
        v@.map_values(|p: &'static str| p@) == spec_help_lines(),
{
    let mut v: Vec<&'static str> = Vec::new();
    v.push("These commands are supported:");
    v.push("/help - List these options with information");
    v.push("/start - Signup for Pepperbot to receive messages when a new deal is listed");
    v.push("/stop - Cancel subscription for Pepperbot");
    v.push(
        "/categories - Signup for one of the Pepper categories. Only accepts comma-separated categories",
    );
    v.push("/available_categories - List available Pepper categories");
    v.push("/stop_bot - Admin - Stop bot from sending messages");
    v.push("/start_bot - Admin - Allow bot to send messages again");
    v.push("/broadcast - Admin - Broadcast to all subscribed users");
    proof {
        assert(v@.map_values(|p: &'static str| p@) =~= spec_help_lines());
    }
    v
}

/// The help lines the sender may see: lines that mention the operator in
/// lowercase are held back from everyone but the operator.
pub open spec fn spec_help_filtered(lines: Seq<Seq<char>>, admin: bool) -> Seq<Seq<char>>
    decreases lines.len(),
{
    if lines.len() == 0 {
        Seq::<Seq<char>>::empty()
    } else {
        let rest = spec_help_filtered(lines.skip(1), admin);
        if admin || !spec_contains(lower_of(lines[0]), "admin"@) {
            seq![lines[0]] + rest
        } else {
            rest
        }
    }
}

pub open spec fn spec_help_text(admin: bool) -> Seq<char> {
    spec_join(spec_help_filtered(spec_help_lines(), admin), "\n"@)
}

/// Builds the help message for a sender.
pub fn help_text(admin: bool) -> (r: String)
    ensures
        r@ == spec_help_text(admin),
{
    let lines = help_lines();
    let ghost views = lines@.map_values(|p: &'static str| p@);
    let n = lines.len();
    let mut kept: Vec<String> = Vec::new();
    let mut i: usize = 0;
    proof {
        assert(views.skip(0) =~= views);
        assert(kept@.map_values(|p: String| p@) + spec_help_filtered(views, admin)
            =~= spec_help_filtered(views, admin));
    }
    while i < n
        invariant
            0 <= i <= n,
            n == lines@.len(),
            views == lines@.map_values(|p: &'static str| p@),
            spec_help_filtered(views, admin) == kept@.map_values(|p: String| p@)
                + spec_help_filtered(views.skip(i as int), admin),
        decreases n - i,
    {
        let ghost pre = kept@.map_values(|p: String| p@);
        proof {
            let rest = views.skip(i as int);
            assert(rest[0] == views[i as int]);
            assert(rest.skip(1) =~= views.skip(i + 1));
        }
        let lower = lowercase(lines[i]);
        let keep = admin || !contains_str(lower.as_str(), "admin");
        if keep {
            kept.push(lines[i].to_owned());
            proof {
                assert(kept@.map_values(|p: String| p@) =~= pre + seq![views[i as int]]);
                assert(pre + (seq![views[i as int]] + spec_help_filtered(
                    views.skip(i + 1),
                    admin,
                )) =~= kept@.map_values(|p: String| p@) + spec_help_filtered(
                    views.skip(i + 1),
                    admin,
                ));
            }
        }
        i = i + 1;
    }
    proof {
        assert(views.skip(n as int) =~= Seq::<Seq<char>>::empty());
        assert(kept@.map_values(|p: String| p@) + Seq::<Seq<char>>::empty() =~= kept@.map_values(
            |p: String| p@,
        ));
    }
    join_strings(&kept, "\n")
}

fn reply_to(chat_id: &str, text: &str) -> (r: Send)
    ensures
        r@ == (SendView { chat_id: chat_id@, text: text@ }),
{
    Send { chat_id: chat_id.to_owned(), text: text.to_owned() }
}

/// The category list message.
pub open spec fn spec_available_text() -> Seq<char> {
    "The following categories are available for signups: \n\n"@ + spec_join(
        spec_categories(),
        "\n"@,
    )
}

pub fn available_text() -> (r: String)
    ensures
        r@ == spec_available_text(),
{
    let cats = categories();
    let n = cats.len();
    let mut owned: Vec<String> = Vec::new();
    let mut i: usize = 0;
    while i < n
        invariant
            0 <= i <= n,
            n == cats@.len(),
            cats@.map_values(|p: &'static str| p@) == spec_categories(),
            owned@.len() == i,
            forall|k: int| 0 <= k < i ==> (#[trigger] owned@[k])@ == cats@[k]@,
        decreases n - i,
    {
        owned.push(cats[i].to_owned());
        i = i + 1;
    }
    let mut r = String::new();
    r.append("The following categories are available for signups: \n\n");
    let joined = join_strings(&owned, "\n");
    proof {
        assert(owned@.map_values(|p: String| p@) =~= spec_categories());
    }
    r.append(joined.as_str());
    r
}

pub open spec fn spec_opt_str(o: Option<&str>) -> Option<Seq<char>> {
    match o {
        None => None,
        Some(s) => Some(s@),
    }
}

/// Handles one command from a sender: decides what the store must record
/// and what replies go out; the transport then performs the replies. The
/// operator commands fall through silently for anyone else.
pub fn answer(
    con: &mut Connection,
    cmd: Command,
    chat_id: &str,
    admin_chat_id: Option<&str>,
    text: Option<&str>,
) -> (replies: Vec<Send>)
    requires
        old(con).wf(),
    ensures
        final(con).wf(),
        final(con).now == old(con).now,
        final(con).markers == old(con).markers,
        final(con).deals == old(con).deals,
        final(con).messages_list == old(con).messages_list,
        final(con).stream == old(con).stream,
        ({
            let admin = spec_is_admin(spec_opt_str(admin_chat_id), chat_id@);
            let rv = replies@.map_values(|s: Send| s@);
            match cmd {
                Command::AdminStopBot => if admin {
                    &&& same_but_config(*old(con), *final(con))
                    &&& final(con).active == old(con).active
                    &&& forall|k: Config|
                        spec_config_get(final(con).config, k) == if k
                            == Config::OperationalKey {
                            Some("0"@)
                        } else {
                            spec_config_get(old(con).config, k)
                        }
                    &&& rv == seq![SendView { chat_id: chat_id@, text: "Stopped bot"@ }]
                } else {
                    *final(con) == *old(con) && rv.len() == 0
                },
                Command::AdminStartBot => if admin {
                    &&& same_but_config(*old(con), *final(con))
                    &&& final(con).active == old(con).active
                    &&& forall|k: Config|
                        spec_config_get(final(con).config, k) == if k
                            == Config::OperationalKey {
                            Some("1"@)
                        } else {
                            spec_config_get(old(con).config, k)
                        }
                    &&& rv == seq![SendView { chat_id: chat_id@, text: "Started bot"@ }]
                } else {
                    *final(con) == *old(con) && rv.len() == 0
                },
                Command::AdminBroadcast => if admin {
                    let btext = spec_broadcast_text(
                        match spec_opt_str(text) {
                            Some(t) => t,
                            None => Seq::<char>::empty(),
                        },
                    );
                    &&& same_but_subscribers(*old(con), *final(con))
                    &&& final(con).subscribers == old(con).subscribers
                    &&& final(con).active == Database::SUBSCRIBER
                    &&& rv.len() == old(con).subscribers@.len()
                    &&& forall|i: int|
                        0 <= i < rv.len() ==> #[trigger] rv[i] == (SendView {
                            chat_id: old(con).subscribers@[i].chat_id@,
                            text: btext,
                        })
                } else {
                    *final(con) == *old(con) && rv.len() == 0
                },
                Command::Help => if admin_chat_id is Some {
                    &&& *final(con) == *old(con)
                    &&& rv == seq![
                        SendView { chat_id: chat_id@, text: spec_help_text(admin) },
                    ]
                } else {
                    *final(con) == *old(con) && rv.len() == 0
                },
                Command::Start => {
                    &&& same_but_subscribers(*old(con), *final(con))
                    &&& final(con).active == Database::SUBSCRIBER
                    &&& forall|x: Seq<char>|
                        spec_subs_get(final(con).subscribers@, x) == if x == chat_id@ {
                            Some("1"@)
                        } else {
                            spec_subs_get(old(con).subscribers@, x)
                        }
                    &&& rv == seq![
                        SendView {
                            chat_id: chat_id@,
                            text: "Signup was successful. You will now receive new updates from Pepper"@,
                        },
                    ]
                },
                Command::Stop => {
                    &&& same_but_subscribers(*old(con), *final(con))
                    &&& final(con).active == Database::SUBSCRIBER
                    &&& forall|x: Seq<char>|
                        spec_subs_get(final(con).subscribers@, x) == if x == chat_id@ {
                            None
                        } else {
                            spec_subs_get(old(con).subscribers@, x)
                        }
                    &&& rv == seq![
                        SendView {
                            chat_id: chat_id@,
                            text: "Subscription was stopped successfully. You will now receive new updates from Pepper"@,
                        },
                    ]
                },
                Command::Categories => match spec_opt_str(text) {
                    None => {
                        &&& *final(con) == *old(con)
                        &&& rv == seq![
                            SendView {
                                chat_id: chat_id@,
                                text: "Something went wrong with reading your message, please try again."@,
                            },
                        ]
                    },
                    Some(t) => {
                        let passed = spec_passed_categories(t);
                        let raw = if passed.len() == 0 {
                            "1"@
                        } else {
                            spec_join(passed, ","@)
                        };
                        &&& same_but_subscribers(*old(con), *final(con))
                        &&& final(con).active == Database::SUBSCRIBER
                        &&& forall|x: Seq<char>|
                            spec_subs_get(final(con).subscribers@, x) == if x == chat_id@ {
                                Some(raw)
                            } else {
                                spec_subs_get(old(con).subscribers@, x)
                            }
                        &&& rv == seq![
                            SendView {
                                chat_id: chat_id@,
                                text: if passed.len() == 0 {
                                    "No categories passed, disabled your category filters"@
                                } else {
                                    "Signed up for "@ + spec_join(passed, ", "@)
                                },
                            },
                        ]
                    },
                },
                Command::AvailableCategories => {
                    &&& *final(con) == *old(con)
                    &&& rv == seq![
                        SendView { chat_id: chat_id@, text: spec_available_text() },
                    ]
                },
            }
        }),
{
    let mut replies: Vec<Send> = Vec::new();
    let ghost g = |s: Send| s@;
    match cmd {
        Command::AdminStopBot => {
            if is_admin(admin_chat_id, chat_id) {
                let _ = set_config(con, Config::OperationalKey, "0".to_owned());
                replies.push(reply_to(chat_id, "Stopped bot"));
                proof {
                    assert(replies@.map_values(g) =~= seq![
                        SendView { chat_id: chat_id@, text: "Stopped bot"@ },
                    ]);
                }
            }
        },
        Command::AdminStartBot => {
            if is_admin(admin_chat_id, chat_id) {
                let _ = set_config(con, Config::OperationalKey, "1".to_owned());
                replies.push(reply_to(chat_id, "Started bot"));
                proof {
                    assert(replies@.map_values(g) =~= seq![
                        SendView { chat_id: chat_id@, text: "Started bot"@ },
                    ]);
                }
            }
        },
        Command::AdminBroadcast => {
            if is_admin(admin_chat_id, chat_id) {
                let btext = match text {
                    Some(t) => broadcast_text(t),
                    None => broadcast_text(""),
                };
                proof {
                    reveal_strlit("");
                    assert(""@ =~= Seq::<char>::empty());
                }
                let subs = match get_subscribers(con) {
                    Ok(s) => s,
                    Err(_) => {
                        proof {
                            assert(false);
                        }
                        Vec::new()
                    },
                };
                let n = subs.len();
                let mut i: usize = 0;
                while i < n
                    invariant
                        0 <= i <= n,
                        n == subs@.len(),
                        replies@.len() == i,
                        forall|k: int|
                            0 <= k < i ==> #[trigger] replies@[k]@ == (SendView {
                                chat_id: subs@[k].chat_id@,
                                text: btext@,
                            }),
                    decreases n - i,
                {
                    replies.push(reply_to(subs[i].chat_id.as_str(), btext.as_str()));
                    i = i + 1;
                }
            }
        },
        Command::Help => {
            if admin_chat_id.is_some() {
                let admin = is_admin(admin_chat_id, chat_id);
                let h = help_text(admin);
                replies.push(reply_to(chat_id, h.as_str()));
                proof {
                    assert(replies@.map_values(g) =~= seq![
                        SendView { chat_id: chat_id@, text: spec_help_text(admin) },
                    ]);
                }
            }
        },
        Command::Start => {
            select(con, Database::SUBSCRIBER);
            set_subscriber(con, chat_id, "1");
            replies.push(
                reply_to(
                    chat_id,
                    "Signup was successful. You will now receive new updates from Pepper",
                ),
            );
            proof {
                assert(replies@.map_values(g) =~= seq![
                    SendView {
                        chat_id: chat_id@,
                        text: "Signup was successful. You will now receive new updates from Pepper"@,
                    },
                ]);
            }
        },
        Command::Stop => {
            select(con, Database::SUBSCRIBER);
            delete_subscriber(con, chat_id);
            replies.push(
                reply_to(
                    chat_id,
                    "Subscription was stopped successfully. You will now receive new updates from Pepper",
                ),
            );
            proof {
                assert(replies@.map_values(g) =~= seq![
                    SendView {
                        chat_id: chat_id@,
                        text: "Subscription was stopped successfully. You will now receive new updates from Pepper"@,
                    },
                ]);
            }
        },
        Command::Categories => {
            match text {
                None => {
                    replies.push(
                        reply_to(
                            chat_id,
                            "Something went wrong with reading your message, please try again.",
                        ),
                    );
                    proof {
                        assert(replies@.map_values(g) =~= seq![
                            SendView {
                                chat_id: chat_id@,
                                text: "Something went wrong with reading your message, please try again."@,
                            },
                        ]);
                    }
                },
                Some(t) => {
                    let passed = passed_categories(t);
                    select(con, Database::SUBSCRIBER);
                    if passed.len() == 0 {
                        set_subscriber(con, chat_id, "1");
                        replies.push(
                            reply_to(
                                chat_id,
                                "No categories passed, disabled your category filters",
                            ),
                        );
                        proof {
                            assert(replies@.map_values(g) =~= seq![
                                SendView {
                                    chat_id: chat_id@,
                                    text: "No categories passed, disabled your category filters"@,
                                },
                            ]);
                        }
                    } else {
                        let joined = join_strings(&passed, ",");
                        set_subscriber(con, chat_id, joined.as_str());
                        let mut msg = String::new();
                        msg.append("Signed up for ");
                        let listed = join_strings(&passed, ", ");
                        msg.append(listed.as_str());
                        replies.push(reply_to(chat_id, msg.as_str()));
                        proof {
                            assert(msg@ =~= "Signed up for "@ + spec_join(
                                spec_passed_categories(t@),
                                ", "@,
                            ));
                            assert(replies@.map_values(g) =~= seq![
                                SendView {
                                    chat_id: chat_id@,
                                    text: "Signed up for "@ + spec_join(
                                        spec_passed_categories(t@),
                                        ", "@,
                                    ),
                                },
                            ]);
                        }
                    }
                },
            }
        },
        Command::AvailableCategories => {
            let a = available_text();
            replies.push(reply_to(chat_id, a.as_str()));
            proof {
                assert(replies@.map_values(g) =~= seq![
                    SendView { chat_id: chat_id@, text: spec_available_text() },
                ]);
            }
        },
    }
    replies
}

} // verus!
