use std::fmt;

use borink::lazy::Lazy;
use serde::de::{self, MapAccess, Visitor};
use serde::ser::SerializeStruct;
use serde::{Deserialize, Deserializer, Serialize, Serializer};

#[derive(Debug, Clone, PartialEq)]
struct Claims {
    my_claim: String,
}

impl Serialize for Claims {
    fn serialize<S: Serializer>(&self, serializer: S) -> Result<S::Ok, S::Error> {
        let mut st = serializer.serialize_struct("Claims", 1)?;
        st.serialize_field("my_claim", &self.my_claim)?;
        st.end()
    }
}

impl<'de> Deserialize<'de> for Claims {
    fn deserialize<D: Deserializer<'de>>(deserializer: D) -> Result<Self, D::Error> {
        struct ClaimsVisitor;

        impl<'de> Visitor<'de> for ClaimsVisitor {
            type Value = Claims;

            fn expecting(&self, f: &mut fmt::Formatter) -> fmt::Result {
                f.write_str("claims")
            }

            fn visit_map<A: MapAccess<'de>>(self, mut map: A) -> Result<Claims, A::Error> {
                let mut my_claim = None;
                while let Some(key) = map.next_key::<String>()? {
                    if key == "my_claim" {
                        my_claim = Some(map.next_value::<String>()?);
                    } else {
                        map.next_value::<de::IgnoredAny>()?;
                    }
                }
                Ok(Claims { my_claim: my_claim.ok_or_else(|| de::Error::missing_field("my_claim"))? })
            }
        }

        deserializer.deserialize_struct("Claims", &["my_claim"], ClaimsVisitor)
    }
}

/// A lazy field as serde writes it: text in human-readable formats, bytes otherwise.
struct LazyRef<'a>(&'a Lazy<Claims>);

impl Serialize for LazyRef<'_> {
    fn serialize<S: Serializer>(&self, serializer: S) -> Result<S::Ok, S::Error> {
        if serializer.is_human_readable() {
            let s = self.0.to_text().map_err(serde::ser::Error::custom)?;
            serializer.serialize_str(&s)
        } else {
            let data = self.0.wire_bytes().map_err(serde::ser::Error::custom)?;
            serializer.serialize_bytes(&data)
        }
    }
}

struct LazyField(Lazy<Claims>);

impl<'de> Deserialize<'de> for LazyField {
    fn deserialize<D: Deserializer<'de>>(deserializer: D) -> Result<Self, D::Error> {
        struct LazyVisitor;

        impl<'de> Visitor<'de> for LazyVisitor {
            type Value = LazyField;

            fn expecting(&self, f: &mut fmt::Formatter) -> fmt::Result {
                f.write_str("a byte array or str")
            }

            fn visit_str<E: de::Error>(self, v: &str) -> Result<LazyField, E> {
                Lazy::from_text(v).map(LazyField).map_err(E::custom)
            }

            fn visit_byte_buf<E: de::Error>(self, v: Vec<u8>) -> Result<LazyField, E> {
                Ok(LazyField(Lazy::from_bytes(v)))
            }

            fn visit_bytes<E: de::Error>(self, v: &[u8]) -> Result<LazyField, E> {
                Ok(LazyField(Lazy::from_bytes(v.to_vec())))
            }
        }

        if deserializer.is_human_readable() {
            deserializer.deserialize_str(LazyVisitor)
        } else {
            deserializer.deserialize_byte_buf(LazyVisitor)
        }
    }
}

struct User {
    user_id: String,
    password_file: String,
    claims: Lazy<Claims>,
}

impl Serialize for User {
    fn serialize<S: Serializer>(&self, serializer: S) -> Result<S::Ok, S::Error> {
        let mut st = serializer.serialize_struct("User", 3)?;
        st.serialize_field("user_id", &self.user_id)?;
        st.serialize_field("password_file", &self.password_file)?;
        st.serialize_field("claims", &LazyRef(&self.claims))?;
        st.end()
    }
}

impl<'de> Deserialize<'de> for User {
    fn deserialize<D: Deserializer<'de>>(deserializer: D) -> Result<Self, D::Error> {
        struct UserVisitor;

        impl<'de> Visitor<'de> for UserVisitor {
            type Value = User;

            fn expecting(&self, f: &mut fmt::Formatter) -> fmt::Result {
                f.write_str("a user")
            }

            fn visit_map<A: MapAccess<'de>>(self, mut map: A) -> Result<User, A::Error> {
                let (mut user_id, mut password_file, mut claims) = (None, None, None);
                while let Some(key) = map.next_key::<String>()? {
                    match key.as_str() {
                        "user_id" => user_id = Some(map.next_value::<String>()?),
                        "password_file" => password_file = Some(map.next_value::<String>()?),
                        "claims" => claims = Some(map.next_value::<LazyField>()?.0),
                        _ => {
                            map.next_value::<de::IgnoredAny>()?;
                        },
                    }
                }
                Ok(User {
                    user_id: user_id.ok_or_else(|| de::Error::missing_field("user_id"))?,
                    password_file: password_file.ok_or_else(|| de::Error::missing_field("password_file"))?,
                    claims: claims.ok_or_else(|| de::Error::missing_field("claims"))?,
                })
            }
        }

        deserializer.deserialize_struct("User", &["user_id", "password_file", "claims"], UserVisitor)
    }
}

struct UserMeta {
    user: User,
}

fn copy_lazy(l: &Lazy<Claims>) -> Lazy<Claims> {
    match l.inner_ref() {
        Some(inner) => Lazy::from_inner(inner.clone()),
        None => Lazy::from_bytes(l.bytes_ref().unwrap().to_vec()),
    }
}

fn copy_user(u: &User) -> User {
    User {
        user_id: u.user_id.clone(),
        password_file: u.password_file.clone(),
        claims: copy_lazy(&u.claims),
    }
}

/// What unwrapping the lazy parts of a user does: its claims are deserialized.
fn unwrap_user(u: User) -> User {
    User {
        user_id: u.user_id,
        password_file: u.password_file,
        claims: Lazy::from_inner(u.claims.try_take().unwrap()),
    }
}

fn unwrap_user_meta(m: UserMeta) -> UserMeta {
    UserMeta { user: unwrap_user(m.user) }
}

fn holds_inner(l: &Lazy<Claims>, claims: &Claims) -> bool {
    l.inner_ref() == Some(claims) && l.bytes_ref().is_none()
}

fn holds_bytes(l: &Lazy<Claims>, bytes: &[u8]) -> bool {
    l.inner_ref().is_none() && l.bytes_ref() == Some(bytes)
}

fn serialize_lazy(claims: &Claims) -> Vec<u8> {
    rmp_serde::encode::to_vec_named(claims).unwrap()
}

#[test]
fn lazy_unwrap() {
    let claims = Claims {
        my_claim: "hi".to_owned(),
    };

    let lazy_claims = Lazy::from_inner(claims.clone());
    let user = User {
        user_id: "abc".to_owned(),
        password_file: "hi".to_owned(),
        claims: lazy_claims,
    };

    assert!(holds_inner(&user.claims, &claims));

    let user_json = serde_json::to_string(&user).unwrap();

    assert_eq!(
        user_json,
        "{\"user_id\":\"abc\",\"password_file\":\"hi\",\"claims\":\"gahteV9jbGFpbaJoaQ\"}"
    );

    let claims_bytes = serialize_lazy(&claims);
    let user: User = serde_json::from_str(&user_json).unwrap();
    assert!(holds_bytes(&user.claims, &claims_bytes));

    assert!(holds_inner(&unwrap_user(copy_user(&user)).claims, &claims));
    assert_eq!(copy_user(&user).claims.take().unwrap(), claims);
    let mut user_mut = copy_user(&user);
    assert_eq!(user_mut.claims.inner().unwrap(), &claims);
    assert!(holds_inner(&user_mut.claims, &claims));

    let user_m = UserMeta { user };
    assert!(holds_bytes(&user_m.user.claims, &claims_bytes));

    let user_m = unwrap_user_meta(user_m);
    assert!(holds_inner(&unwrap_user(user_m.user).claims, &claims));
}

#[test]
fn lazy_trait() {
    let claims = Claims {
        my_claim: "hi".to_owned(),
    };
    let claims_bytes = serialize_lazy(&claims);
    let lazy_claims = Lazy::from_inner(claims.clone());
    assert!(holds_inner(&lazy_claims, &claims));
    let mut lazy_mut = copy_lazy(&lazy_claims);
    assert_eq!(claims_bytes, lazy_mut.bytes().unwrap());
    assert!(holds_bytes(&lazy_mut, &claims_bytes));
    assert_eq!(claims_bytes, copy_lazy(&lazy_claims).take_bytes().unwrap());
    let lazy_serial = copy_lazy(&lazy_mut);
    assert_eq!(&claims, lazy_mut.inner().unwrap());
    assert!(holds_inner(&lazy_mut, &claims));
    assert_eq!(claims, lazy_serial.take().unwrap());
}

#[test]
fn msgpack_round_trip() {
    let claims = Claims {
        my_claim: "hi".to_owned(),
    };
    let claims_bytes = serialize_lazy(&claims);
    let lazy_claims = Lazy::from_inner(claims.clone());
    let user = User {
        user_id: "abc".to_owned(),
        password_file: "hi".to_owned(),
        claims: lazy_claims,
    };

    let user_lazy = User {
        user_id: "abc".to_owned(),
        password_file: "hi".to_owned(),
        claims: Lazy::from_bytes(claims_bytes.clone()),
    };

    let bytes = rmp_serde::encode::to_vec_named(&user).unwrap();

    let decoded: User = rmp_serde::decode::from_slice(&bytes).unwrap();

    assert_eq!(user_lazy.user_id, decoded.user_id);
    assert_eq!(user_lazy.password_file, decoded.password_file);
    assert!(holds_bytes(&decoded.claims, &claims_bytes));
    let unwrapped = unwrap_user(decoded);
    assert_eq!(user.user_id, unwrapped.user_id);
    assert!(holds_inner(&unwrapped.claims, &claims));
}
