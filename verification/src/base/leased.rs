//! A value with the time of its last update and the lease that time grants.

use vstd::prelude::*;

use crate::base::text::{decimal, duration_text, push_char, push_decimal, push_duration, push_str};

verus! {

/// An object along with its last update time and lease duration, in
/// milliseconds. The lease specifies how long the object remains valid.
#[derive(Debug)]
pub struct Leased<T> {
    data: T,
    last_modified: Option<u64>,
    lease: u64,
    lease_enabled: bool,
}

/// `a - b`, or 0 where `b` is later.
pub open spec fn saturating_sub(a: u64, b: u64) -> nat {
    if a >= b {
        (a - b) as nat
    } else {
        0
    }
}

/// Whether an object last updated at `last_modified` with `lease` has expired
/// at `now`, given the extra `timeout`.
pub open spec fn lease_expired(last_modified: Option<u64>, lease: u64, now: u64, timeout: u64) -> bool {
    match last_modified {
        Some(u) => now > u + lease + timeout,
        None => true,
    }
}

/// A lease renewed at `now` holds, with the extra `timeout`, until
/// `now + lease + timeout` and has expired right after; a value never
/// updated has always expired.
pub proof fn lemma_lease_window(now: u64, lease: u64, timeout: u64, t: u64)
    ensures
        lease_expired(Some(now), lease, t, timeout) <==> t > now + lease + timeout,
        lease_expired(None, lease, t, timeout),
        now <= t <= now + lease + timeout ==> !lease_expired(Some(now), lease, t, timeout),
{
}

impl<T: Default> Default for Leased<T> {
    /// The default object, never updated, with no lease, the lease enabled.
    fn default() -> (r: Self)
        ensures
            r.last_modified() is None,
            r.lease() == 0,
            r.lease_enabled(),
    {
        Leased { data: T::default(), last_modified: None, lease: 0, lease_enabled: true }
    }
}

impl<T> Leased<T> {
    pub closed spec fn data(&self) -> T {
        self.data
    }

    pub closed spec fn last_modified(&self) -> Option<u64> {
        self.last_modified
    }

    pub closed spec fn lease(&self) -> u64 {
        self.lease
    }

    pub closed spec fn lease_enabled(&self) -> bool {
        self.lease_enabled
    }

    /// An object updated at `now` with a lease of `lease`.
    pub fn new(now: u64, lease: u64, data: T) -> (r: Self)
        ensures
            r.data() == data,
            r.last_modified() == Some(now),
            r.lease() == lease,
            r.lease_enabled(),
    {
        Leased { data, last_modified: Some(now), lease, lease_enabled: true }
    }

    /// The object.
    pub fn get(&self) -> (r: &T)
        ensures
            *r == self.data(),
    {
        &self.data
    }

    /// The last update time, the lease, and whether the lease is enabled.
    pub fn lease_info(&self) -> (r: (Option<u64>, u64, bool))
        ensures
            r == (self.last_modified(), self.lease(), self.lease_enabled()),
    {
        (self.last_modified, self.lease, self.lease_enabled)
    }

    /// Consumes this object and returns the inner data.
    pub fn into_inner(self) -> (r: T)
        ensures
            r == self.data(),
    {
        self.data
    }

    /// Replaces the object and restarts its lease at `now`.
    pub fn update(&mut self, now: u64, lease: u64, data: T)
        ensures
            final(self).data() == data,
            final(self).last_modified() == Some(now),
            final(self).lease() == lease,
            final(self).lease_enabled(),
    {
        self.data = data;
        self.last_modified = Some(now);
        self.lease = lease;
        self.lease_enabled = true;
    }

    /// Whether the object has expired at `now`; `timeout` extends the lease.
    pub fn is_expired(&self, now: u64, timeout: u64) -> (r: bool)
        ensures
            r == lease_expired(self.last_modified(), self.lease(), now, timeout),
    {
        match self.last_modified {
            Some(u) => (now as u128) > (u as u128) + (self.lease as u128) + (timeout as u128),
            None => true,
        }
    }

    /// Restarts the lease at `now`; time does not go back.
    pub fn touch(&mut self, now: u64, lease: u64)
        requires
            match old(self).last_modified() {
                Some(u) => u <= now,
                None => true,
            },
        ensures
            final(self).data() == old(self).data(),
            final(self).last_modified() == Some(now),
            final(self).lease() == if old(self).lease_enabled() {
                lease
            } else {
                old(self).lease()
            },
            final(self).lease_enabled() == old(self).lease_enabled(),
    {
        self.last_modified = Some(now);
        if self.lease_enabled {
            self.lease = lease;
        }
    }

    /// The object rendered as `data@last_update+lease(enabled)`, or
    /// `data(enabled)` where it was never updated; `data` is the rendering
    /// of the object.
    pub fn display(&self, data: &str) -> (s: String)
        ensures
            s@ == data@ + match self.last_modified() {
                Some(u) => seq!['@'] + decimal(u as nat) + seq!['+'] + duration_text(
                    self.lease() as nat,
                ),
                None => Seq::<char>::empty(),
            } + seq!['('] + if self.lease_enabled() {
                "enabled"@
            } else {
                "disabled"@
            } + seq![')'],
    {
        let mut s = String::new();
        push_str(&mut s, data);
        match self.last_modified {
            Some(u) => {
                push_char(&mut s, '@');
                push_decimal(&mut s, u);
                push_char(&mut s, '+');
                push_duration(&mut s, self.lease);
            },
            None => {},
        }
        push_char(&mut s, '(');
        if self.lease_enabled {
            push_str(&mut s, "enabled");
        } else {
            push_str(&mut s, "disabled");
        }
        push_char(&mut s, ')');
        s
    }

    /// The last update and the lease, relative to `now`: how long ago the
    /// update was, when the lease expires and how long until then.
    pub fn display_lease_info(&self, now: u64) -> (s: String)
        requires
            match self.last_modified() {
                Some(u) => u + self.lease() <= u64::MAX,
                None => true,
            },
        ensures
            s@ == match self.last_modified() {
                Some(u) => "now: "@ + decimal(now as nat) + ", last_update: "@ + decimal(u as nat)
                    + seq!['('] + duration_text(saturating_sub(now, u)) + " ago), lease: "@
                    + duration_text(self.lease() as nat) + ", expire at: "@ + decimal(
                    (u + self.lease()) as nat,
                ) + seq!['('] + duration_text(saturating_sub((u + self.lease()) as u64, now))
                    + " since now)"@,
                None => "last_update: None"@,
            },
    {
        match self.last_modified {
            Some(u) => {
                let expire_at = u + self.lease;
                let mut s = String::from_str("now: ");
                push_decimal(&mut s, now);
                push_str(&mut s, ", last_update: ");
                push_decimal(&mut s, u);
                push_char(&mut s, '(');
                push_duration(
                    &mut s,
                    if now >= u {
                        now - u
                    } else {
                        0
                    },
                );
                push_str(&mut s, " ago), lease: ");
                push_duration(&mut s, self.lease);
                push_str(&mut s, ", expire at: ");
                push_decimal(&mut s, expire_at);
                push_char(&mut s, '(');
                push_duration(
                    &mut s,
                    if expire_at >= now {
                        expire_at - now
                    } else {
                        0
                    },
                );
                push_str(&mut s, " since now)");
                s
            },
            None => String::from_str("last_update: None"),
        }
    }
}

} // verus!
