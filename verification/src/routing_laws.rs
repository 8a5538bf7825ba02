//! What holds of every configuration's hostnames and routing table.

use vstd::prelude::*;
use crate::apps::AppView;
use crate::configuration::{
    all_sub_entries, all_sub_names, base_entries, base_name, base_names, host_type_of,
    sub_entries, sub_names, table_of, ConfigView, Entry,
};

verus! {

/// The hostnames of a list of entries, in order.
pub open spec fn keys(entries: Seq<Entry>) -> Seq<Seq<char>> {
    entries.map_values(|e: Entry| e.0)
}

/// The number of subdomains that the apps declare, taken together.
pub open spec fn total_subdomains(apps: Seq<AppView>) -> nat
    decreases apps.len(),
{
    if apps.len() == 0 {
        0
    } else {
        total_subdomains(apps.drop_last()) + match apps.last().subdomains {
            Some(subs) => subs.len(),
            None => 0,
        }
    }
}

/// The entries for the subdomains of the apps are bound under the names of
/// those subdomains, and there is one for each subdomain declared.
pub proof fn lemma_sub_entry_names(apps: Seq<AppView>, hostname: Seq<char>, port: Option<u16>)
    ensures
        keys(all_sub_entries(apps, hostname, port)) == all_sub_names(apps, hostname),
        all_sub_names(apps, hostname).len() == total_subdomains(apps),
    decreases apps.len(),
{
    if apps.len() == 0 {
        assert(keys(all_sub_entries(apps, hostname, port)) =~= all_sub_names(apps, hostname));
    } else {
        lemma_sub_entry_names(apps.drop_last(), hostname, port);
        assert(keys(sub_entries(apps.last(), hostname, port)) =~= sub_names(apps.last(), hostname));
        assert(keys(all_sub_entries(apps, hostname, port)) =~= keys(
            all_sub_entries(apps.drop_last(), hostname, port),
        ) + keys(sub_entries(apps.last(), hostname, port)));
    }
}

/// The entries of the routing table are bound under the hostnames of the
/// gateway's apps, in the same order, and there is one for each served app
/// and each subdomain that such an app declares.
pub proof fn lemma_entry_names(c: ConfigView)
    ensures
        keys(c.entries()) == c.app_names(),
        c.entries().len() == c.served().len() + total_subdomains(c.served()),
{
    let sv = c.served();
    lemma_sub_entry_names(sv, c.hostname, c.port_hint());
    assert(keys(base_entries(sv, c.hostname, c.port_hint())) =~= base_names(sv, c.hostname));
    assert(keys(c.entries()) =~= keys(base_entries(sv, c.hostname, c.port_hint())) + keys(
        all_sub_entries(sv, c.hostname, c.port_hint()),
    ));
}

/// The hostnames that a table binds are those of its entries.
pub proof fn lemma_table_names(entries: Seq<Entry>)
    ensures
        table_of(entries).dom() == keys(entries).to_set(),
        table_of(entries).dom().finite(),
    decreases entries.len(),
{
    if entries.len() == 0 {
        assert(keys(entries).to_set() =~= Set::empty());
        assert(table_of(entries).dom() =~= Set::empty());
    } else {
        let front = entries.drop_last();
        let last = entries.last();
        lemma_table_names(front);
        assert(keys(entries) =~= keys(front).push(last.0));
        keys(front).lemma_push_to_set_commute(last.0);
        assert(table_of(entries).dom() =~= keys(entries).to_set());
    }
}

/// Where no hostname comes twice among the entries, the table holds each
/// entry as it is, and as many bindings as there are entries.
pub proof fn lemma_table_distinct(entries: Seq<Entry>)
    requires
        keys(entries).no_duplicates(),
    ensures
        table_of(entries).dom().finite(),
        table_of(entries).len() == entries.len(),
        forall|i: int|
            0 <= i < entries.len() ==> table_of(entries).contains_key((#[trigger] entries[i]).0)
                && table_of(entries)[entries[i].0] == entries[i].1,
    decreases entries.len(),
{
    lemma_table_names(entries);
    keys(entries).unique_seq_to_set();
    if entries.len() > 0 {
        let front = entries.drop_last();
        let last = entries.last();
        assert(keys(front) =~= keys(entries).drop_last());
        assert(keys(front).no_duplicates()) by {
            assert forall|i: int, j: int|
                0 <= i < keys(front).len() && 0 <= j < keys(front).len() && i != j implies keys(
                front,
            )[i] != keys(front)[j] by {
                assert(keys(entries)[i] == keys(front)[i]);
                assert(keys(entries)[j] == keys(front)[j]);
            }
        }
        lemma_table_distinct(front);
        assert forall|i: int| 0 <= i < entries.len() implies table_of(entries).contains_key(
            (#[trigger] entries[i]).0,
        ) && table_of(entries)[entries[i].0] == entries[i].1 by {
            if i < entries.len() - 1 {
                assert(front[i] == entries[i]);
                assert(keys(entries)[i] == entries[i].0);
                assert(keys(entries)[entries.len() - 1] == last.0);
                assert(entries[i].0 != last.0);
            }
        }
    }
}

/// The hostnames that `domains` lists are those that the routing table
/// binds, and the gateway's own.
pub proof fn lemma_domains_are_routes(c: ConfigView)
    ensures
        c.domains().to_set() == c.routing().dom().insert(c.hostname),
{
    lemma_entry_names(c);
    lemma_table_names(c.entries());
    let names = keys(c.entries());
    assert((seq![c.hostname] + names).to_set() =~= names.to_set().insert(c.hostname)) by {
        assert forall|x: Seq<char>| (seq![c.hostname] + names).to_set().contains(x) implies names.to_set().insert(
            c.hostname,
        ).contains(x) by {
            let i = choose|i: int|
                0 <= i < (seq![c.hostname] + names).len() && (seq![c.hostname] + names)[i] == x;
            if i > 0 {
                assert(names[i - 1] == x);
            }
        }
        assert forall|x: Seq<char>|
            names.to_set().insert(c.hostname).contains(x) implies (seq![c.hostname]
            + names).to_set().contains(x) by {
            if x == c.hostname {
                assert((seq![c.hostname] + names)[0] == x);
            } else {
                let i = choose|i: int| 0 <= i < names.len() && names[i] == x;
                assert((seq![c.hostname] + names)[i + 1] == x);
            }
        }
    }
}

/// The entry for a subdomain of one of the apps is among the entries for
/// the subdomains of them all.
pub proof fn lemma_sub_entry_present(
    apps: Seq<AppView>,
    hostname: Seq<char>,
    port: Option<u16>,
    i: int,
    k: int,
)
    requires
        0 <= i < apps.len(),
        0 <= k < sub_names(apps[i], hostname).len(),
    ensures
        all_sub_entries(apps, hostname, port).contains(
            (sub_names(apps[i], hostname)[k], host_type_of(apps[i], hostname, port)),
        ),
    decreases apps.len(),
{
    let front = apps.drop_last();
    let before = all_sub_entries(front, hostname, port);
    let all = all_sub_entries(apps, hostname, port);
    let e = (sub_names(apps[i], hostname)[k], host_type_of(apps[i], hostname, port));
    if i == apps.len() - 1 {
        assert(sub_entries(apps.last(), hostname, port)[k] == e);
        assert(all[before.len() + k] == e);
    } else {
        assert(front[i] == apps[i]);
        lemma_sub_entry_present(front, hostname, port, i, k);
        let at = choose|at: int| 0 <= at < before.len() && before[at] == e;
        assert(all[at] == e);
    }
}

/// As long as no two of them share a hostname, each app that the gateway
/// serves and each subdomain that such an app declares has its own entry in
/// the routing table, bound to that app, and the table holds nothing else:
/// as many bindings as there are served apps and subdomains declared by
/// them.
pub proof fn lemma_one_route_each(c: ConfigView)
    requires
        c.app_names().no_duplicates(),
    ensures
        c.routing().dom().finite(),
        c.routing().len() == c.served().len() + total_subdomains(c.served()),
        forall|i: int|
            #![trigger c.served()[i]]
            0 <= i < c.served().len() ==> {
                let name = base_name(c.served()[i].host, c.hostname);
                c.routing().contains_key(name) && c.routing()[name] == host_type_of(
                    c.served()[i],
                    c.hostname,
                    c.port_hint(),
                )
            },
        forall|i: int, k: int|
            #![trigger sub_names(c.served()[i], c.hostname)[k]]
            0 <= i < c.served().len() && 0 <= k < sub_names(c.served()[i], c.hostname).len() ==> {
                let name = sub_names(c.served()[i], c.hostname)[k];
                c.routing().contains_key(name) && c.routing()[name] == host_type_of(
                    c.served()[i],
                    c.hostname,
                    c.port_hint(),
                )
            },
{
    lemma_entry_names(c);
    let entries = c.entries();
    let sv = c.served();
    let base = base_entries(sv, c.hostname, c.port_hint());
    let subs = all_sub_entries(sv, c.hostname, c.port_hint());
    lemma_table_distinct(entries);
    assert forall|i: int| #![trigger c.served()[i]] 0 <= i < c.served().len() implies {
        let name = base_name(c.served()[i].host, c.hostname);
        c.routing().contains_key(name) && c.routing()[name] == host_type_of(
            c.served()[i],
            c.hostname,
            c.port_hint(),
        )
    } by {
        assert(entries[i] == base[i]);
    }
    assert forall|i: int, k: int|
        #![trigger sub_names(c.served()[i], c.hostname)[k]]
        0 <= i < c.served().len() && 0 <= k < sub_names(c.served()[i], c.hostname).len() implies {
        let name = sub_names(c.served()[i], c.hostname)[k];
        c.routing().contains_key(name) && c.routing()[name] == host_type_of(
            c.served()[i],
            c.hostname,
            c.port_hint(),
        )
    } by {
        lemma_sub_entry_present(sv, c.hostname, c.port_hint(), i, k);
        let e = (sub_names(sv[i], c.hostname)[k], host_type_of(sv[i], c.hostname, c.port_hint()));
        let at = choose|at: int| 0 <= at < subs.len() && subs[at] == e;
        assert(entries[base.len() + at] == e);
    }
}

} // verus!
