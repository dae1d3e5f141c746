//! Prices of the shop: decimal numbers kept as digits and a scale, the way
//! `bigdecimal::BigDecimal` keeps them, with no bound on the digits, and the
//! arithmetic the cart needs.
use vstd::prelude::*;

verus! {

/// `10^n`.
pub open spec fn potencia_diez(n: nat) -> int
    decreases n,
{
    if n == 0 {
        1
    } else {
        10 * potencia_diez((n - 1) as nat)
    }
}

/// The digit at position `i` (0 is the units), 0 past the end.
pub open spec fn cifra(c: Seq<u8>, i: int) -> int {
    if 0 <= i < c.len() {
        c[i] as int
    } else {
        0
    }
}

/// The number written by the first `i` digits (least significant first).
pub open spec fn valor_hasta(c: Seq<u8>, i: nat) -> int
    decreases i,
{
    if i == 0 {
        0
    } else {
        valor_hasta(c, (i - 1) as nat) + cifra(c, i - 1) * potencia_diez((i - 1) as nat)
    }
}

/// The number a sequence of decimal digits writes, least significant first.
pub open spec fn valor_cifras(c: Seq<u8>) -> int {
    valor_hasta(c, c.len())
}

/// Every digit is below ten.
pub open spec fn cifras_validas(c: Seq<u8>) -> bool {
    forall|i: int| 0 <= i < c.len() ==> #[trigger] c[i] < 10
}

/// The integer of a sign and a sequence of digits.
pub open spec fn entero(negativo: bool, c: Seq<u8>) -> int {
    if negativo {
        -valor_cifras(c)
    } else {
        valor_cifras(c)
    }
}

/// `10^(a + b) == 10^a · 10^b`.
pub proof fn lema_potencia_suma(a: nat, b: nat)
    ensures
        potencia_diez(a + b) == potencia_diez(a) * potencia_diez(b),
    decreases a,
{
    if a > 0 {
        lema_potencia_suma((a - 1) as nat, b);
        assert(potencia_diez(a + b) == 10 * potencia_diez((a - 1 + b) as nat));
        assert(10 * (potencia_diez((a - 1) as nat) * potencia_diez(b)) == (10 * potencia_diez(
            (a - 1) as nat,
        )) * potencia_diez(b)) by (nonlinear_arith);
    }
}

/// `10^n` is positive.
pub proof fn lema_potencia_positiva(n: nat)
    ensures
        potencia_diez(n) >= 1,
    decreases n,
{
    if n > 0 {
        lema_potencia_positiva((n - 1) as nat);
    }
}

/// Valid digits write a number in `[0, 10^i)`.
proof fn lema_valor_acotado(c: Seq<u8>, i: nat)
    requires
        cifras_validas(c),
    ensures
        0 <= valor_hasta(c, i) < potencia_diez(i),
    decreases i,
{
    if i > 0 {
        lema_valor_acotado(c, (i - 1) as nat);
        lema_potencia_positiva((i - 1) as nat);
        let p = potencia_diez((i - 1) as nat);
        let d = cifra(c, i - 1);
        assert(0 <= d <= 9);
        assert(0 <= d * p <= 9 * p) by (nonlinear_arith)
            requires
                0 <= d <= 9,
                p >= 1,
        ;
    }
}

/// Digits past the end are zeros: they add nothing.
proof fn lema_valor_mas_alla(c: Seq<u8>, i: nat)
    requires
        i >= c.len(),
    ensures
        valor_hasta(c, i) == valor_cifras(c),
    decreases i,
{
    if i > c.len() {
        lema_valor_mas_alla(c, (i - 1) as nat);
    }
}

/// Two sequences that agree on their first `i` digits write the same number there.
proof fn lema_valor_prefijo(a: Seq<u8>, b: Seq<u8>, i: nat)
    requires
        forall|j: int| 0 <= j < i ==> cifra(a, j) == cifra(b, j),
    ensures
        valor_hasta(a, i) == valor_hasta(b, i),
    decreases i,
{
    if i > 0 {
        lema_valor_prefijo(a, b, (i - 1) as nat);
    }
}

/// Pushing a digit keeps the number written by the digits before it.
proof fn lema_valor_push(c: Seq<u8>, d: u8)
    ensures
        valor_hasta(c.push(d), c.len()) == valor_hasta(c, c.len()),
        valor_cifras(c.push(d)) == valor_cifras(c) + d * potencia_diez(c.len()),
{
    lema_valor_prefijo(c.push(d), c, c.len());
}

/// The digits of `a + b` (both magnitudes).
fn sumar_magnitudes(a: &Vec<u8>, b: &Vec<u8>) -> (r: Vec<u8>)
    requires
        cifras_validas(a@),
        cifras_validas(b@),
    ensures
        cifras_validas(r@),
        valor_cifras(r@) == valor_cifras(a@) + valor_cifras(b@),
{
    let n: usize = if a.len() >= b.len() {
        a.len()
    } else {
        b.len()
    };
    let mut r: Vec<u8> = Vec::new();
    let mut acarreo: u8 = 0;
    let mut i: usize = 0;
    while i < n
        invariant
            n == (if a@.len() >= b@.len() {
                a@.len()
            } else {
                b@.len()
            }),
            cifras_validas(a@),
            cifras_validas(b@),
            0 <= i <= n,
            r@.len() == i,
            cifras_validas(r@),
            acarreo <= 1,
            valor_cifras(r@) + acarreo * potencia_diez(i as nat) == valor_hasta(a@, i as nat)
                + valor_hasta(b@, i as nat),
        decreases n - i,
    {
        let da: u8 = if i < a.len() {
            a[i]
        } else {
            0
        };
        let db: u8 = if i < b.len() {
            b[i]
        } else {
            0
        };
        assert(da as int == cifra(a@, i as int));
        assert(db as int == cifra(b@, i as int));
        let s: u8 = da + db + acarreo;
        let ghost r_antes = r@;
        r.push(s % 10);
        proof {
            lema_valor_push(r_antes, s % 10);
            let p = potencia_diez(i as nat);
            assert(potencia_diez(i as nat + 1) == 10 * p);
            let sa = s as int;
            assert((sa % 10) * p + (sa / 10) * (10 * p) == sa * p) by (nonlinear_arith)
                requires
                    sa >= 0,
            ;
            assert(sa * p == (da as int) * p + (db as int) * p + (acarreo as int) * p)
                by (nonlinear_arith)
                requires
                    sa == da as int + db as int + acarreo as int,
            ;
        }
        acarreo = s / 10;
        i = i + 1;
    }
    proof {
        lema_valor_mas_alla(a@, n as nat);
        lema_valor_mas_alla(b@, n as nat);
    }
    if acarreo > 0 {
        let ghost r_antes = r@;
        r.push(acarreo);
        proof {
            lema_valor_push(r_antes, acarreo);
        }
    }
    r
}

/// The digits of `a - b` (both magnitudes) when it is not negative, with
/// `false`; otherwise the digits of `a - b + 10^n` for the length `n` of the
/// result, with `true`.
fn restar_magnitudes(a: &Vec<u8>, b: &Vec<u8>) -> (r: (Vec<u8>, bool))
    requires
        cifras_validas(a@),
        cifras_validas(b@),
    ensures
        cifras_validas(r.0@),
        valor_cifras(r.0@) - (if r.1 {
            potencia_diez(r.0@.len())
        } else {
            0
        }) == valor_cifras(a@) - valor_cifras(b@),
{
    let n: usize = if a.len() >= b.len() {
        a.len()
    } else {
        b.len()
    };
    let mut r: Vec<u8> = Vec::new();
    let mut prestamo: u8 = 0;
    let mut i: usize = 0;
    while i < n
        invariant
            n == (if a@.len() >= b@.len() {
                a@.len()
            } else {
                b@.len()
            }),
            cifras_validas(a@),
            cifras_validas(b@),
            0 <= i <= n,
            r@.len() == i,
            cifras_validas(r@),
            prestamo <= 1,
            valor_cifras(r@) - prestamo * potencia_diez(i as nat) == valor_hasta(a@, i as nat)
                - valor_hasta(b@, i as nat),
        decreases n - i,
    {
        let da: u8 = if i < a.len() {
            a[i]
        } else {
            0
        };
        let db: u8 = if i < b.len() {
            b[i]
        } else {
            0
        };
        assert(da as int == cifra(a@, i as int));
        assert(db as int == cifra(b@, i as int));
        let resta: u8;
        let nuevo: u8;
        if da >= db + prestamo {
            resta = da - db - prestamo;
            nuevo = 0;
        } else {
            resta = da + 10 - db - prestamo;
            nuevo = 1;
        }
        let ghost r_antes = r@;
        r.push(resta);
        proof {
            lema_valor_push(r_antes, resta);
            let p = potencia_diez(i as nat);
            assert(potencia_diez(i as nat + 1) == 10 * p);
            assert((resta as int) - 10 * (nuevo as int) == da as int - db as int - prestamo as int);
            assert((resta as int) * p - (nuevo as int) * (10 * p) == (da as int) * p - (
            db as int) * p - (prestamo as int) * p) by (nonlinear_arith)
                requires
                    (resta as int) - 10 * (nuevo as int) == da as int - db as int
                        - prestamo as int,
            ;
        }
        prestamo = nuevo;
        i = i + 1;
    }
    proof {
        lema_valor_mas_alla(a@, n as nat);
        lema_valor_mas_alla(b@, n as nat);
    }
    (r, prestamo == 1)
}

/// The digits of `a · k` (a magnitude times a natural number).
fn multiplicar_magnitud(a: &Vec<u8>, k: u32) -> (r: Vec<u8>)
    requires
        cifras_validas(a@),
    ensures
        cifras_validas(r@),
        valor_cifras(r@) == valor_cifras(a@) * k,
{
    let mut r: Vec<u8> = Vec::new();
    let mut acarreo: u64 = 0;
    let mut i: usize = 0;
    while i < a.len()
        invariant
            cifras_validas(a@),
            0 <= i <= a@.len(),
            r@.len() == i,
            cifras_validas(r@),
            acarreo <= k,
            valor_cifras(r@) + acarreo * potencia_diez(i as nat) == valor_hasta(a@, i as nat) * k,
        decreases a@.len() - i,
    {
        let d: u64 = a[i] as u64;
        assert(d as int == cifra(a@, i as int));
        assert(d * (k as u64) <= 9 * (k as u64)) by (nonlinear_arith)
            requires
                d <= 9,
        ;
        let s: u64 = d * (k as u64) + acarreo;
        let ghost r_antes = r@;
        r.push((s % 10) as u8);
        proof {
            lema_valor_push(r_antes, (s % 10) as u8);
            let p = potencia_diez(i as nat);
            assert(potencia_diez(i as nat + 1) == 10 * p);
            let si = s as int;
            assert((si % 10) * p + (si / 10) * (10 * p) == si * p) by (nonlinear_arith)
                requires
                    si >= 0,
            ;
            let vh = valor_hasta(a@, i as nat);
            assert((vh + (d as int) * p) * (k as int) == vh * (k as int) + ((d as int) * (
            k as int)) * p) by (nonlinear_arith);
            assert(si * p == ((d as int) * (k as int)) * p + (acarreo as int) * p)
                by (nonlinear_arith)
                requires
                    si == (d as int) * (k as int) + acarreo as int,
            ;
        }
        acarreo = s / 10;
        i = i + 1;
    }
    while acarreo > 0
        invariant
            cifras_validas(r@),
            valor_cifras(r@) + acarreo * potencia_diez(r@.len()) == valor_cifras(a@) * k,
        decreases acarreo,
    {
        let ghost r_antes = r@;
        r.push((acarreo % 10) as u8);
        proof {
            lema_valor_push(r_antes, (acarreo % 10) as u8);
            let p = potencia_diez(r_antes.len());
            assert(potencia_diez(r_antes.len() + 1) == 10 * p);
            let c = acarreo as int;
            assert((c % 10) * p + (c / 10) * (10 * p) == c * p) by (nonlinear_arith)
                requires
                    c >= 0,
            ;
        }
        acarreo = acarreo / 10;
    }
    r
}

/// The digits of `a · 10^d`: `d` zeros in front.
fn desplazar(a: &Vec<u8>, d: u64) -> (r: Vec<u8>)
    requires
        cifras_validas(a@),
    ensures
        cifras_validas(r@),
        valor_cifras(r@) == valor_cifras(a@) * potencia_diez(d as nat),
{
    let mut r: Vec<u8> = Vec::new();
    let mut j: u64 = 0;
    while j < d
        invariant
            j <= d,
            r@.len() == j,
            cifras_validas(r@),
            valor_cifras(r@) == 0,
        decreases d - j,
    {
        let ghost r_antes = r@;
        r.push(0);
        proof {
            lema_valor_push(r_antes, 0);
        }
        j = j + 1;
    }
    let mut i: usize = 0;
    while i < a.len()
        invariant
            cifras_validas(a@),
            0 <= i <= a@.len(),
            r@.len() == d + i,
            cifras_validas(r@),
            valor_cifras(r@) == valor_hasta(a@, i as nat) * potencia_diez(d as nat),
        decreases a@.len() - i,
    {
        let ghost r_antes = r@;
        r.push(a[i]);
        proof {
            lema_valor_push(r_antes, a[i as int]);
            lema_potencia_suma(i as nat, d as nat);
            assert(r_antes.len() == (i + d) as nat);
            let vh = valor_hasta(a@, i as nat);
            let pi = potencia_diez(i as nat);
            let pd = potencia_diez(d as nat);
            let c = a[i as int] as int;
            assert(c == cifra(a@, i as int));
            assert((vh + c * pi) * pd == vh * pd + c * (pi * pd)) by (nonlinear_arith);
        }
        i = i + 1;
    }
    r
}

/// All the digits are zero.
fn todo_ceros(a: &Vec<u8>) -> (r: bool)
    ensures
        r ==> valor_cifras(a@) == 0,
{
    let mut i: usize = 0;
    while i < a.len()
        invariant
            0 <= i <= a@.len(),
            valor_hasta(a@, i as nat) == 0,
        decreases a@.len() - i,
    {
        if a[i] != 0 {
            return false;
        }
        assert(cifra(a@, i as int) == 0);
        assert(valor_hasta(a@, (i + 1) as nat) == valor_hasta(a@, i as nat) + cifra(a@, i as int)
            * potencia_diez(i as nat));
        i = i + 1;
    }
    true
}

/// A decimal number: its value is `entero(negativo, cifras) · 10^(−escala)`.
///
/// Like `BigDecimal`, it keeps the integer of its digits (here as decimal
/// digits, least significant first, with no bound on their number) and an
/// `i64` scale; its view is that integer and that scale.
#[derive(Debug)]
pub struct Decimal {
    negativo: bool,
    cifras: Vec<u8>,
    escala: i64,
}

impl Decimal {
    #[verifier::type_invariant]
    spec fn bien_formado(self) -> bool {
        cifras_validas(self.cifras@)
    }
}

impl View for Decimal {
    type V = (int, int);

    closed spec fn view(&self) -> (int, int) {
        (entero(self.negativo, self.cifras@), self.escala as int)
    }
}

/// The larger of two scales: the scale of a sum.
pub open spec fn escala_comun(a: (int, int), b: (int, int)) -> int {
    if a.1 >= b.1 {
        a.1
    } else {
        b.1
    }
}

/// The digits of `a` written at scale `s` (for `s >= a.1`).
pub open spec fn alinear(a: (int, int), s: int) -> int {
    a.0 * potencia_diez((s - a.1) as nat)
}

/// The sum of two decimals as `BigDecimal` forms it: at the larger scale.
pub open spec fn suma_spec(a: (int, int), b: (int, int)) -> (int, int) {
    let s = escala_comun(a, b);
    (alinear(a, s) + alinear(b, s), s)
}

/// A decimal times an integer as `BigDecimal` forms it: the scale stays.
pub open spec fn producto_spec(a: (int, int), k: int) -> (int, int) {
    (a.0 * k, a.1)
}

impl Decimal {
    /// The decimal with these digits and this scale.
    pub fn nuevo(digitos: i128, escala: i64) -> (d: Decimal)
        ensures
            d@ == (digitos as int, escala as int),
    {
        let negativo = digitos < 0;
        let m0: u128 = if digitos < 0 {
            ((-(digitos + 1)) as u128) + 1
        } else {
            digitos as u128
        };
        assert(m0 as int == (if digitos < 0 {
            -digitos
        } else {
            digitos as int
        }));
        let mut m: u128 = m0;
        let mut cifras: Vec<u8> = Vec::new();
        cifras.push((m % 10) as u8);
        proof {
            lema_valor_push(Seq::<u8>::empty(), (m % 10) as u8);
            assert(Seq::<u8>::empty().push((m % 10) as u8) =~= cifras@);
            assert(m0 as int == (m0 as int % 10) + (m0 as int / 10) * 10);
        }
        m = m / 10;
        while m > 0
            invariant
                cifras_validas(cifras@),
                valor_cifras(cifras@) + m * potencia_diez(cifras@.len()) == m0,
            decreases m,
        {
            let ghost antes = cifras@;
            cifras.push((m % 10) as u8);
            proof {
                lema_valor_push(antes, (m % 10) as u8);
                let p = potencia_diez(antes.len());
                assert(potencia_diez(antes.len() + 1) == 10 * p);
                let c = m as int;
                assert((c % 10) * p + (c / 10) * (10 * p) == c * p) by (nonlinear_arith)
                    requires
                        c >= 0,
                ;
            }
            m = m / 10;
        }
        Decimal { negativo, cifras, escala }
    }

    /// The decimal with this sign, these digits (least significant first) and
    /// this scale; `None` when some digit is not below ten.
    pub fn desde_cifras(negativo: bool, cifras: Vec<u8>, escala: i64) -> (r: Option<Decimal>)
        ensures
            r is Some <==> cifras_validas(cifras@),
            r matches Some(d) ==> d@ == (entero(negativo, cifras@), escala as int),
    {
        let mut i: usize = 0;
        while i < cifras.len()
            invariant
                0 <= i <= cifras@.len(),
                forall|j: int| 0 <= j < i ==> #[trigger] cifras@[j] < 10,
            decreases cifras@.len() - i,
        {
            if cifras[i] >= 10 {
                return None;
            }
            i = i + 1;
        }
        Some(Decimal { negativo, cifras, escala })
    }

    /// The scale.
    pub fn escala(&self) -> (e: i64)
        ensures
            e == self@.1,
    {
        self.escala
    }

    /// The sign, the digits (least significant first) and the scale.
    pub fn partes(&self) -> (r: (bool, &Vec<u8>, i64))
        ensures
            cifras_validas(r.1@),
            (entero(r.0, r.1@), r.2 as int) == self@,
    {
        proof {
            use_type_invariant(self);
        }
        (self.negativo, &self.cifras, self.escala)
    }

    /// A copy of the decimal.
    pub fn copiar(&self) -> (d: Decimal)
        ensures
            d@ == self@,
    {
        proof {
            use_type_invariant(self);
        }
        let mut cifras: Vec<u8> = Vec::new();
        let mut i: usize = 0;
        while i < self.cifras.len()
            invariant
                0 <= i <= self.cifras@.len(),
                cifras@ == self.cifras@.take(i as int),
            decreases self.cifras@.len() - i,
        {
            cifras.push(self.cifras[i]);
            assert(cifras@ =~= self.cifras@.take(i as int + 1));
            i = i + 1;
        }
        assert(cifras@ =~= self.cifras@);
        Decimal { negativo: self.negativo, cifras, escala: self.escala }
    }
}

/// Brings the digits of a decimal to a larger scale: `d` zeros in front,
/// unless the number is zero (which `BigDecimal` leaves as it is).
fn alinear_cifras(a: &Vec<u8>, d: u64) -> (r: Vec<u8>)
    requires
        cifras_validas(a@),
    ensures
        cifras_validas(r@),
        valor_cifras(r@) == valor_cifras(a@) * potencia_diez(d as nat),
{
    if d == 0 || todo_ceros(a) {
        let mut r: Vec<u8> = Vec::new();
        let mut i: usize = 0;
        while i < a.len()
            invariant
                0 <= i <= a@.len(),
                r@ == a@.take(i as int),
            decreases a@.len() - i,
        {
            r.push(a[i]);
            assert(r@ =~= a@.take(i as int + 1));
            i = i + 1;
        }
        assert(r@ =~= a@);
        assert(potencia_diez(0) == 1);
        r
    } else {
        desplazar(a, d)
    }
}

/// Adds two decimals as `BigDecimal` does: at the larger of the two scales.
pub fn sumar(a: &Decimal, b: &Decimal) -> (r: Decimal)
    ensures
        r@ == suma_spec(a@, b@),
{
    proof {
        use_type_invariant(a);
        use_type_invariant(b);
    }
    let s: i64 = if a.escala >= b.escala {
        a.escala
    } else {
        b.escala
    };
    let da: u64 = ((s as i128) - (a.escala as i128)) as u64;
    let db: u64 = ((s as i128) - (b.escala as i128)) as u64;
    let ma = alinear_cifras(&a.cifras, da);
    let mb = alinear_cifras(&b.cifras, db);
    let ghost va = valor_cifras(ma@);
    let ghost vb = valor_cifras(mb@);
    assert(alinear(a@, s as int) == entero(a.negativo, ma@)) by {
        assert(da as nat == (s - a.escala) as nat);
        if a.negativo {
            assert(-valor_cifras(a.cifras@) * potencia_diez(da as nat) == -(valor_cifras(a.cifras@)
                * potencia_diez(da as nat))) by (nonlinear_arith);
        }
    }
    assert(alinear(b@, s as int) == entero(b.negativo, mb@)) by {
        assert(db as nat == (s - b.escala) as nat);
        if b.negativo {
            assert(-valor_cifras(b.cifras@) * potencia_diez(db as nat) == -(valor_cifras(b.cifras@)
                * potencia_diez(db as nat))) by (nonlinear_arith);
        }
    }
    if a.negativo == b.negativo {
        let cifras = sumar_magnitudes(&ma, &mb);
        Decimal { negativo: a.negativo, cifras, escala: s }
    } else {
        let (r, prestamo) = restar_magnitudes(&ma, &mb);
        if !prestamo {
            Decimal { negativo: a.negativo, cifras: r, escala: s }
        } else {
            proof {
                lema_valor_acotado(r@, r@.len());
            }
            let (r2, prestamo2) = restar_magnitudes(&mb, &ma);
            proof {
                lema_valor_acotado(r2@, r2@.len());
                if prestamo2 {
                    lema_valor_acotado(mb@, mb@.len());
                }
            }
            Decimal { negativo: b.negativo, cifras: r2, escala: s }
        }
    }
}

/// Multiplies a decimal by an integer as `BigDecimal` does: the scale stays.
pub fn multiplicar(a: &Decimal, k: i32) -> (r: Decimal)
    ensures
        r@ == producto_spec(a@, k as int),
{
    proof {
        use_type_invariant(a);
    }
    let magnitud_k: u32 = if k < 0 {
        ((-(k as i64)) as u32)
    } else {
        k as u32
    };
    let cifras = multiplicar_magnitud(&a.cifras, magnitud_k);
    let negativo = a.negativo != (k < 0);
    let ghost v = valor_cifras(a.cifras@);
    assert(entero(negativo, cifras@) == entero(a.negativo, a.cifras@) * k) by {
        let m = magnitud_k as int;
        if k < 0 {
            assert(k as int == -m);
        } else {
            assert(k as int == m);
        }
        assert(v * (-m) == -(v * m)) by (nonlinear_arith);
        assert((-v) * (-m) == v * m) by (nonlinear_arith);
        assert((-v) * m == -(v * m)) by (nonlinear_arith);
    }
    Decimal { negativo, cifras, escala: a.escala }
}

/// What `BigDecimal::from_str` gives for a text, as its digits and its scale.
pub uninterp spec fn bigdecimal_desde_texto(s: Seq<char>) -> Option<(int, int)>;

/// What `Display` of `bigdecimal::BigDecimal` writes for a decimal, given its
/// digits and its scale.
pub uninterp spec fn bigdecimal_texto(d: (int, int)) -> Seq<char>;

/// Parses a decimal with `<bigdecimal::BigDecimal as FromStr>::from_str` and
/// takes its digits with `into_bigint_and_exponent` and `BigInt::to_radix_le`
/// in base 10. Claims that the result is the sign, the digits (each below
/// ten, as `to_radix_le` documents) and the scale of the parsed decimal, and
/// `None` exactly when the parse fails. What the parse accepts is left to the
/// name `bigdecimal_desde_texto`.
#[verifier::external_body]
fn partes_desde_texto(s: &str) -> (r: Option<(bool, Vec<u8>, i64)>)
    ensures
        r is Some <==> bigdecimal_desde_texto(s@) is Some,
        r matches Some(p) ==> cifras_validas(p.1@) && bigdecimal_desde_texto(s@) == Some(
            (entero(p.0, p.1@), p.2 as int),
        ),
{
    match <bigdecimal::BigDecimal as std::str::FromStr>::from_str(s) {
        Ok(x) => {
            let (m, e) = x.into_bigint_and_exponent();
            let (signo, cifras) = m.to_radix_le(10);
            let negativo = match signo {
                bigdecimal::num_bigint::Sign::Minus => true,
                bigdecimal::num_bigint::Sign::NoSign => false,
                bigdecimal::num_bigint::Sign::Plus => false,
            };
            Some((negativo, cifras, e))
        },
        Err(_) => None,
    }
}

/// Writes a decimal with `ToString` of `bigdecimal::BigDecimal`, built with
/// `BigInt::from_radix_le` (base 10) and `BigDecimal::new` from the sign, the
/// digits and the scale. Claims only that the text is the named one for this
/// integer and scale; how it looks is left to the name `bigdecimal_texto`.
/// The crate fixes, when it is built, how many leading or trailing zeros
/// switch it to exponent notation (its build reads `RUST_BIGDECIMAL_FMT_*`
/// variables): the name stands for one build.
#[verifier::external_body]
fn escribir_bigdecimal(negativo: bool, cifras: &Vec<u8>, escala: i64) -> (s: String)
    requires
        cifras_validas(cifras@),
    ensures
        s@ == bigdecimal_texto((entero(negativo, cifras@), escala as int)),
{
    let signo = if negativo {
        bigdecimal::num_bigint::Sign::Minus
    } else {
        bigdecimal::num_bigint::Sign::Plus
    };
    match bigdecimal::num_bigint::BigInt::from_radix_le(signo, cifras, 10) {
        Some(m) => bigdecimal::BigDecimal::new(m, escala).to_string(),
        None => String::new(),
    }
}

/// Parses a decimal as `BigDecimal::from_str` does; `None` when the text is refused.
pub fn decimal_desde_texto(s: &str) -> (r: Option<Decimal>)
    ensures
        r is Some <==> bigdecimal_desde_texto(s@) is Some,
        r matches Some(d) ==> bigdecimal_desde_texto(s@) == Some(d@),
{
    match partes_desde_texto(s) {
        Some((negativo, cifras, escala)) => Some(Decimal { negativo, cifras, escala }),
        None => None,
    }
}

/// A price as the pages show it.
pub fn texto_decimal(d: &Decimal) -> (s: String)
    ensures
        s@ == bigdecimal_texto(d@),
{
    proof {
        use_type_invariant(d);
    }
    escribir_bigdecimal(d.negativo, &d.cifras, d.escala)
}

} // verus!
