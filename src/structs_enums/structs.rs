//! Structs with methods: users and rectangles.
use std::cmp::Ordering;
use vstd::prelude::*;
use vstd::string::StringExecFns;

verus! {

/// An account with a sign-in counter.
#[derive(Debug)]
pub struct User {
    pub active: bool,
    pub username: String,
    pub email: String,
    pub sign_in_count: u64,
}

/// A rectangle with integer sides.
#[derive(Debug, Clone)]
pub struct Rectangle {
    pub width: u32,
    pub height: u32,
}

/// An active user who has signed in once.
pub fn build_user(email: String, username: String) -> (r: User)
    ensures
        r.active,
        r.username@ == username@,
        r.email@ == email@,
        r.sign_in_count == 1,
{
    User { active: true, username, email, sign_in_count: 1 }
}

impl Rectangle {
    /// `width * height`.
    pub fn area(&self) -> (r: u32)
        requires
            self.width * self.height <= u32::MAX,
        ensures
            r == self.width * self.height,
    {
        self.width * self.height
    }

    /// `2 * (width + height)`.
    pub fn perimeter(&self) -> (r: u32)
        requires
            2 * (self.width + self.height) <= u32::MAX,
        ensures
            r == 2 * (self.width + self.height),
    {
        2 * (self.width + self.height)
    }

    /// Whether both sides are equal.
    pub fn is_square(&self) -> (r: bool)
        ensures
            r == (self.width == self.height),
    {
        self.width == self.height
    }

    /// Whether `other` fits strictly inside on both sides.
    pub fn can_hold(&self, other: &Rectangle) -> (r: bool)
        ensures
            r == (self.width > other.width && self.height > other.height),
    {
        self.width > other.width && self.height > other.height
    }

    /// Both sides multiplied by `factor`.
    pub fn scale(&self, factor: u32) -> (r: Rectangle)
        requires
            self.width * factor <= u32::MAX,
            self.height * factor <= u32::MAX,
        ensures
            r.width == self.width * factor,
            r.height == self.height * factor,
    {
        Rectangle { width: self.width * factor, height: self.height * factor }
    }

    /// Replaces both sides.
    pub fn resize(&mut self, new_width: u32, new_height: u32)
        ensures
            final(self).width == new_width,
            final(self).height == new_height,
    {
        self.width = new_width;
        self.height = new_height;
    }

    /// A square with side `size`.
    pub fn square(size: u32) -> (r: Rectangle)
        ensures
            r.width == size,
            r.height == size,
    {
        Rectangle { width: size, height: size }
    }

    /// A rectangle with the given sides.
    pub fn new(width: u32, height: u32) -> (r: Rectangle)
        ensures
            r.width == width,
            r.height == height,
    {
        Rectangle { width, height }
    }

    /// The unit square.
    pub fn default() -> (r: Rectangle)
        ensures
            r.width == 1,
            r.height == 1,
    {
        Rectangle { width: 1, height: 1 }
    }

    /// How the area compares with the area of `other`.
    pub fn compare_area(&self, other: &Rectangle) -> (r: Ordering)
        requires
            self.width * self.height <= u32::MAX,
            other.width * other.height <= u32::MAX,
        ensures
            (r == Ordering::Less) == (self.width * self.height < other.width * other.height),
            (r == Ordering::Equal) == (self.width * self.height == other.width * other.height),
            (r == Ordering::Greater) == (self.width * self.height > other.width * other.height),
    {
        let a = self.area();
        let b = other.area();
        if a < b {
            Ordering::Less
        } else if a == b {
            Ordering::Equal
        } else {
            Ordering::Greater
        }
    }
}

impl User {
    /// An active user who has signed in once.
    pub fn new(username: String, email: String) -> (r: User)
        ensures
            r.active,
            r.username@ == username@,
            r.email@ == email@,
            r.sign_in_count == 1,
    {
        User { active: true, username, email, sign_in_count: 1 }
    }

    /// An active administrator who has not signed in yet.
    pub fn new_admin(username: &str, email: &str) -> (r: User)
        ensures
            r.active,
            r.username@ == username@,
            r.email@ == email@,
            r.sign_in_count == 0,
    {
        User {
            active: true,
            username: String::from_str(username),
            email: String::from_str(email),
            sign_in_count: 0,
        }
    }

    /// Counts one more sign-in.
    pub fn sign_in(&mut self)
        requires
            old(self).sign_in_count < u64::MAX,
        ensures
            final(self).sign_in_count == old(self).sign_in_count + 1,
            final(self).active == old(self).active,
            final(self).username == old(self).username,
            final(self).email == old(self).email,
    {
        self.sign_in_count = self.sign_in_count + 1;
    }

    /// Marks the user inactive.
    pub fn deactivate(&mut self)
        ensures
            !final(self).active,
            final(self).sign_in_count == old(self).sign_in_count,
            final(self).username == old(self).username,
            final(self).email == old(self).email,
    {
        self.active = false;
    }

    /// Whether the user has signed in at most once.
    pub fn is_new_user(&self) -> (r: bool)
        ensures
            r == (self.sign_in_count <= 1),
    {
        self.sign_in_count <= 1
    }
}

} // verus!
